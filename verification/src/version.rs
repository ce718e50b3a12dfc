//! The installed browser's major version: three digits read off the output
//! of its version command.

use vstd::prelude::*;
use crate::error::{Error, ErrorView};
use crate::text::{is_digit, lex_le};

verus! {

/// The digits of `s`, in the order in which they occur. Line breaks are no
/// digits, so this is also what the digits of the lines of `s` give when put
/// together.
pub open spec fn digits_of(s: Seq<char>) -> Seq<char>
    decreases s.len(),
{
    if s.len() == 0 {
        Seq::empty()
    } else if is_digit(s.last()) {
        digits_of(s.drop_last()).push(s.last())
    } else {
        digits_of(s.drop_last())
    }
}

/// Output without a digit holds no digits at all, so no version is read off
/// it; and the digits that are read are never more than the output is long.
pub proof fn lemma_digits_of(s: Seq<char>)
    ensures
        digits_of(s).len() <= s.len(),
        forall|i: int| 0 <= i < digits_of(s).len() ==> is_digit(#[trigger] digits_of(s)[i]),
        (forall|i: int| 0 <= i < s.len() ==> !is_digit(#[trigger] s[i])) ==> digits_of(s).len()
            == 0,
    decreases s.len(),
{
    if s.len() > 0 {
        let shorter = s.drop_last();
        lemma_digits_of(shorter);
        assert forall|i: int| 0 <= i < shorter.len() implies s[i] == #[trigger] shorter[i] by {}
        if forall|i: int| 0 <= i < s.len() ==> !is_digit(#[trigger] s[i]) {
            assert(!is_digit(s[s.len() - 1]));
            assert forall|i: int| 0 <= i < shorter.len() implies !is_digit(
                #[trigger] shorter[i],
            ) by {
                assert(shorter[i] == s[i]);
            }
        }
    }
}

/// The value of the digit that `c` writes.
pub open spec fn digit_value(c: char) -> nat {
    if c == '1' {
        1
    } else if c == '2' {
        2
    } else if c == '3' {
        3
    } else if c == '4' {
        4
    } else if c == '5' {
        5
    } else if c == '6' {
        6
    } else if c == '7' {
        7
    } else if c == '8' {
        8
    } else if c == '9' {
        9
    } else {
        0
    }
}

/// A major version of the browser: exactly three ASCII digits.
#[derive(Clone, Copy, Debug, PartialEq, Eq, Structural)]
pub struct ChromeVersion {
    first: char,
    second: char,
    third: char,
}

impl ChromeVersion {
    /// Whether the three characters are digits. Every version that this
    /// module hands out is valid.
    pub closed spec fn is_valid(self) -> bool {
        is_digit(self.first) && is_digit(self.second) && is_digit(self.third)
    }

    #[verifier::type_invariant]
    spec fn holds_digits(self) -> bool {
        self.is_valid()
    }

    /// The version as it is written.
    pub closed spec fn text(self) -> Seq<char> {
        seq![self.first, self.second, self.third]
    }

    /// The number that the three digits write.
    pub closed spec fn number(self) -> nat {
        100 * digit_value(self.first) + 10 * digit_value(self.second) + digit_value(self.third)
    }

    /// Whether the milestone catalogue serves this version: it does from
    /// `114` on, in the order of strings.
    pub open spec fn is_modern(self) -> bool {
        lex_le("114"@, self.text())
    }

    /// A valid version is written with three digits, and the number they
    /// write is below a thousand.
    pub proof fn lemma_text(self)
        requires
            self.is_valid(),
        ensures
            self.text().len() == 3,
            forall|i: int| 0 <= i < 3 ==> is_digit(#[trigger] self.text()[i]),
            self.number() < 1000,
    {
    }

    /// The text determines the version.
    pub proof fn lemma_text_determines(self, other: ChromeVersion)
        requires
            self.text() == other.text(),
        ensures
            self == other,
    {
        assert(self.text()[0] == other.text()[0]);
        assert(self.text()[1] == other.text()[1]);
        assert(self.text()[2] == other.text()[2]);
    }

    /// Among versions, the order of strings is the order of numbers.
    pub proof fn lemma_order_is_numeric(self, other: ChromeVersion)
        requires
            self.is_valid(),
            other.is_valid(),
        ensures
            lex_le(self.text(), other.text()) <==> self.number() <= other.number(),
    {
        reveal_with_fuel(lex_le, 4);
        let a = self.text();
        let b = other.text();
        assert(a.drop_first() =~= seq![self.second, self.third]);
        assert(b.drop_first() =~= seq![other.second, other.third]);
        assert(a.drop_first().drop_first() =~= seq![self.third]);
        assert(b.drop_first().drop_first() =~= seq![other.third]);
        assert(a.drop_first().drop_first().drop_first() =~= Seq::<char>::empty());
    }

    /// The milestone catalogue serves exactly the versions from 114 on.
    pub proof fn lemma_modern_is_numeric(self)
        requires
            self.is_valid(),
        ensures
            self.is_modern() <==> self.number() >= 114,
    {
        let floor = ChromeVersion { first: '1', second: '1', third: '4' };
        reveal_strlit("114");
        assert(floor.text() =~= "114"@);
        floor.lemma_order_is_numeric(self);
    }

    /// Reads the version off the output of the version command: the first
    /// three digits that occur in it. Output with fewer than three digits
    /// gives no version.
    pub fn parse(output: &str) -> (r: Result<ChromeVersion, Error>)
        ensures
            match r {
                Ok(v) => {
                    &&& digits_of(output@).len() >= 3
                    &&& v.text() == digits_of(output@).take(3)
                    &&& v.is_valid()
                },
                Err(e) => digits_of(output@).len() < 3 && e@ == ErrorView::VersionProbeFailed,
            },
    {
        let mut found: Vec<char> = Vec::new();
        for c in it: output.chars()
            invariant
                it.seq() == output@,
                found@ == digits_of(output@.take(it.index())),
                forall|i: int| 0 <= i < found@.len() ==> is_digit(#[trigger] found@[i]),
        {
            proof {
                let k = it.index();
                assert(output@.take(k + 1).drop_last() =~= output@.take(k));
                assert(output@.take(k + 1).last() == c);
            }
            if c >= '0' && c <= '9' {
                found.push(c);
            }
        }
        proof {
            assert(output@.take(output@.len() as int) =~= output@);
        }
        if found.len() < 3 {
            return Err(Error::VersionProbeFailed);
        }
        let v = ChromeVersion { first: found[0], second: found[1], third: found[2] };
        assert(v.text() =~= digits_of(output@).take(3));
        Ok(v)
    }

    /// The version as a string.
    pub fn to_text(&self) -> (r: String)
        ensures
            r@ == self.text(),
    {
        let mut out = String::new();
        out.push(self.first);
        out.push(self.second);
        out.push(self.third);
        assert(out@ =~= self.text());
        out
    }

    /// Whether the milestone catalogue serves this version.
    pub fn uses_milestones(&self) -> (r: bool)
        ensures
            r == self.is_modern(),
            self.is_valid(),
    {
        proof {
            use_type_invariant(self);
            self.lemma_modern_is_numeric();
        }
        self.first > '1' || (self.first == '1' && (self.second > '1' || (self.second == '1'
            && self.third >= '4')))
    }
}

} // verus!
