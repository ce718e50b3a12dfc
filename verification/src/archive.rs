//! The archive extractor: reads a ZIP archive held in memory and plans what
//! is to be written to the working directory.
//!
//! Every file of the archive lands directly in the working directory, under
//! its base name, whatever folders the archive keeps it in. Nothing is
//! written here: the plan lists the steps, in the order of the archive, and
//! says whether that order could be followed to its end.

use vstd::prelude::*;
use std::io::Read;
use crate::text::ends_with_char;

verus! {

/// The reader of `zip`, opaque here.
#[verifier::external_type_specification]
#[verifier::external_body]
#[verifier::reject_recursive_types(R)]
pub struct ExZipArchive<R>(zip::ZipArchive<R>);

/// The in-memory reader of std, opaque here.
#[verifier::external_type_specification]
#[verifier::external_body]
#[verifier::reject_recursive_types(T)]
pub struct ExCursor<T>(std::io::Cursor<T>);

/// The files that an open archive lists, in its order: each with its name,
/// and with whether `zip` finds and opens it there when it is given the empty
/// password.
pub uninterp spec fn files_in(archive: zip::ZipArchive<std::io::Cursor<Vec<u8>>>) -> Seq<
    (Seq<char>, bool),
>;

/// The files that `zip` finds listed in `body`, in the order of the listing,
/// each with its name and with whether it opens with the empty password;
/// nothing where `zip` refuses the bytes as an archive.
pub uninterp spec fn listed_files(body: Seq<u8>) -> Option<Seq<(Seq<char>, bool)>>;

/// Opens the archive that `body` holds, with `zip::ZipArchive::new` on a
/// cursor over the bytes. The contract names what was found: the opened
/// archive lists the files that `body` lists, and bytes that are refused
/// list none.
#[verifier::external_body]
fn open_archive(body: Vec<u8>) -> (r: Option<zip::ZipArchive<std::io::Cursor<Vec<u8>>>>)
    ensures
        match r {
            Some(archive) => listed_files(body@) == Some(files_in(archive)),
            None => listed_files(body@) is None,
        },
{
    zip::ZipArchive::new(std::io::Cursor::new(body)).ok()
}

/// The number of files that the archive lists, from `zip::ZipArchive::len`.
#[verifier::external_body]
fn archive_len(archive: &zip::ZipArchive<std::io::Cursor<Vec<u8>>>) -> (r: usize)
    ensures
        r == files_in(*archive).len(),
{
    archive.len()
}

/// The name of the file at `index` as the archive lists it, from
/// `zip::read::ZipFile::name` on what `zip::ZipArchive::by_index_decrypt`
/// finds there. The password is ignored for a file that is not encrypted.
/// An index past the end, a file that cannot be found in the bytes and a
/// file that the password does not open give nothing; with the empty
/// password, the name is given exactly for a file that the listing marks as
/// opening. The look-up reads the bytes from fixed places and leaves the
/// listing as it is.
#[verifier::external_body]
fn entry_name(
    archive: &mut zip::ZipArchive<std::io::Cursor<Vec<u8>>>,
    index: usize,
    password: &[u8],
) -> (r: Option<String>)
    ensures
        files_in(*final(archive)) == files_in(*old(archive)),
        r matches Some(name) ==> index < files_in(*old(archive)).len() && name@ == files_in(
            *old(archive),
        )[index as int].0,
        password@.len() == 0 ==> (r is Some <==> index < files_in(*old(archive)).len()
            && files_in(*old(archive))[index as int].1),
{
    match archive.by_index_decrypt(index, password) {
        Ok(Ok(file)) => Some(file.name().to_owned()),
        Ok(Err(_)) => None,
        Err(_) => None,
    }
}

/// The name of the file at `index` as a relative path without special
/// components, from `zip::read::ZipFile::mangled_name`. How a name is split
/// into components depends on the platform, so nothing is claimed of the
/// path itself. With the empty password, a path is given exactly for a file
/// that the listing marks as opening; the listing is not changed.
#[verifier::external_body]
fn entry_path(
    archive: &mut zip::ZipArchive<std::io::Cursor<Vec<u8>>>,
    index: usize,
    password: &[u8],
) -> (r: Option<String>)
    ensures
        files_in(*final(archive)) == files_in(*old(archive)),
        password@.len() == 0 ==> (r is Some <==> index < files_in(*old(archive)).len()
            && files_in(*old(archive))[index as int].1),
{
    match archive.by_index_decrypt(index, password) {
        Ok(Ok(file)) => Some(file.mangled_name().to_string_lossy().into_owned()),
        Ok(Err(_)) => None,
        Err(_) => None,
    }
}

/// The contents of the file at `index`, unpacked with
/// `std::io::Read::read_to_end`. A file that cannot be unpacked, or whose
/// checksum is wrong, gives nothing; the listing is not changed.
#[verifier::external_body]
fn entry_contents(
    archive: &mut zip::ZipArchive<std::io::Cursor<Vec<u8>>>,
    index: usize,
    password: &[u8],
) -> (r: Option<Vec<u8>>)
    ensures
        files_in(*final(archive)) == files_in(*old(archive)),
{
    let mut contents = Vec::new();
    match archive.by_index_decrypt(index, password) {
        Ok(Ok(mut file)) => match file.read_to_end(&mut contents) {
            Ok(_) => Some(contents),
            Err(_) => None,
        },
        Ok(Err(_)) => None,
        Err(_) => None,
    }
}

/// The last component of `path`, from `std::path::Path::file_name`. How a
/// path is split into components depends on the platform, so nothing is
/// claimed of the result.
#[verifier::external_body]
fn final_component(path: &str) -> (r: Option<String>) {
    match std::path::Path::new(path).file_name() {
        Some(name) => Some(name.to_string_lossy().into_owned()),
        None => None,
    }
}

/// What was read of one file of an archive.
#[derive(Clone, Debug, PartialEq, Eq)]
pub struct Entry {
    /// The name as the archive has it.
    pub name: String,
    /// The name as a relative path without special components.
    pub path: String,
    /// The last component of that path, if it has one.
    pub base: Option<String>,
    /// The unpacked contents, if they could be unpacked.
    pub contents: Option<Vec<u8>>,
}

/// What was read of an archive: its files in the order of the archive, up to
/// the first that could not be found, and whether there was no such file.
#[derive(Clone, Debug, PartialEq, Eq)]
pub struct Listing {
    pub entries: Vec<Entry>,
    pub intact: bool,
}

/// One step of an extraction.
#[derive(Clone, Debug, PartialEq, Eq)]
pub enum Step {
    /// Create this directory, and those above it.
    CreateDir(String),
    /// Write a file of this name into the working directory, in place of
    /// what may be there.
    WriteFile { name: String, contents: Vec<u8> },
}

/// The steps of an extraction, in order, and whether they are all of it. The
/// steps of a plan that is not complete are still to be taken; the
/// extraction fails after the last of them.
#[derive(Clone, Debug, PartialEq, Eq)]
pub struct Plan {
    pub steps: Vec<Step>,
    pub complete: bool,
}

/// An [`Entry`] with its texts as sequences.
pub struct EntryView {
    pub name: Seq<char>,
    pub path: Seq<char>,
    pub base: Option<Seq<char>>,
    pub contents: Option<Seq<u8>>,
}

/// A [`Step`] with its texts as sequences.
pub enum StepView {
    CreateDir(Seq<char>),
    WriteFile { name: Seq<char>, contents: Seq<u8> },
}

impl View for Entry {
    type V = EntryView;

    open spec fn view(&self) -> EntryView {
        EntryView {
            name: self.name@,
            path: self.path@,
            base: match self.base {
                Some(base) => Some(base@),
                None => None,
            },
            contents: match self.contents {
                Some(contents) => Some(contents@),
                None => None,
            },
        }
    }
}

impl View for Step {
    type V = StepView;

    open spec fn view(&self) -> StepView {
        match self {
            Step::CreateDir(path) => StepView::CreateDir(path@),
            Step::WriteFile { name, contents } => StepView::WriteFile {
                name: name@,
                contents: contents@,
            },
        }
    }
}

/// The entries as sequences.
pub open spec fn entry_views(entries: Seq<Entry>) -> Seq<EntryView> {
    entries.map_values(|e: Entry| e@)
}

/// The steps as sequences.
pub open spec fn step_views(steps: Seq<Step>) -> Seq<StepView> {
    steps.map_values(|s: Step| s@)
}

/// Whether an entry of this name stands for a directory: its name ends with
/// a slash.
pub open spec fn names_directory(name: Seq<char>) -> bool {
    name.len() > 0 && name.last() == '/'
}

/// The step that `entry` asks for. A directory is created under its path. A
/// file is written under its base name; one without a base name, or with an
/// empty one, or without contents, has no step.
pub open spec fn step_of(entry: EntryView) -> Option<StepView> {
    if names_directory(entry.name) {
        Some(StepView::CreateDir(entry.path))
    } else {
        match (entry.base, entry.contents) {
            (Some(base), Some(contents)) => if base.len() > 0 {
                Some(StepView::WriteFile { name: base, contents })
            } else {
                None
            },
            _ => None,
        }
    }
}

/// The steps of the entries that come before the first without a step.
pub open spec fn steps_of(entries: Seq<EntryView>) -> Seq<StepView>
    decreases entries.len(),
{
    if entries.len() == 0 {
        Seq::empty()
    } else {
        let before = steps_of(entries.drop_last());
        match step_of(entries.last()) {
            Some(step) => if before.len() == entries.len() - 1 {
                before.push(step)
            } else {
                before
            },
            None => before,
        }
    }
}

/// Whether the extraction of a listing runs to its end: the archive was
/// intact and every entry has a step.
pub open spec fn runs_to_end(entries: Seq<EntryView>, intact: bool) -> bool {
    intact && steps_of(entries).len() == entries.len()
}

/// Whether no step of `steps` writes a file without a name.
pub open spec fn files_are_named(steps: Seq<StepView>) -> bool {
    forall|i: int|
        0 <= i < steps.len() ==> (#[trigger] steps[i] matches StepView::WriteFile { name, .. }
            ==> name.len() > 0)
}

/// There are never more steps than entries, each step is that of the entry
/// at its place, and the entry after the last step, if there is one, has no
/// step.
pub proof fn lemma_steps_of(entries: Seq<EntryView>)
    ensures
        steps_of(entries).len() <= entries.len(),
        forall|i: int|
            0 <= i < steps_of(entries).len() ==> step_of(entries[i]) == Some(
                #[trigger] steps_of(entries)[i],
            ),
        steps_of(entries).len() < entries.len() ==> step_of(
            entries[steps_of(entries).len() as int],
        ) is None,
        files_are_named(steps_of(entries)),
    decreases entries.len(),
{
    if entries.len() > 0 {
        let shorter = entries.drop_last();
        lemma_steps_of(shorter);
        let before = steps_of(shorter);
        let all = steps_of(entries);
        assert forall|i: int| 0 <= i < all.len() implies step_of(entries[i]) == Some(
            #[trigger] all[i],
        ) by {
            if i < before.len() {
                assert(shorter[i] == entries[i]);
                assert(all[i] == before[i]);
            }
        }
        if all.len() < entries.len() {
            if before.len() < shorter.len() {
                assert(shorter[before.len() as int] == entries[before.len() as int]);
            }
        }
        assert forall|i: int| 0 <= i < all.len() implies (#[trigger] all[i] matches StepView::WriteFile {
            name,
            ..
        } ==> name.len() > 0) by {
            if i < before.len() {
                assert(all[i] == before[i]);
            }
        }
    }
}

/// The step that `entry` asks for, if it has one.
pub fn step_for(entry: Entry) -> (r: Option<Step>)
    ensures
        match r {
            Some(step) => step_of(entry@) == Some(step@),
            None => step_of(entry@) is None,
        },
{
    if ends_with_char(entry.name.as_str(), '/') {
        return Some(Step::CreateDir(entry.path));
    }
    match (entry.base, entry.contents) {
        (Some(base), Some(contents)) => {
            if !base.as_str().is_empty() {
                Some(Step::WriteFile { name: base, contents })
            } else {
                None
            }
        },
        _ => None,
    }
}

/// Plans the extraction of a listing: the steps of its entries, in order, up
/// to the first entry that has none.
pub fn plan(listing: Listing) -> (r: Plan)
    ensures
        step_views(r.steps@) == steps_of(entry_views(listing.entries@)),
        r.complete == runs_to_end(entry_views(listing.entries@), listing.intact),
{
    let ghost all = entry_views(listing.entries@);
    let mut steps: Vec<Step> = Vec::new();
    let mut complete = listing.intact;
    let mut stopped = false;
    for entry in it: listing.entries
        invariant
            all == entry_views(it.seq()),
            step_views(steps@) == steps_of(all.take(it.index())),
            stopped == (steps@.len() < it.index()),
            steps@.len() <= it.index(),
            complete == (listing.intact && !stopped),
    {
        proof {
            let k = it.index();
            assert(all.take(k + 1).drop_last() =~= all.take(k));
            assert(all.take(k + 1).last() == entry@);
        }
        if !stopped {
            match step_for(entry) {
                Some(step) => {
                    proof {
                        assert(step_views(steps@.push(step)) =~= step_views(steps@).push(step@));
                    }
                    steps.push(step);
                },
                None => {
                    stopped = true;
                    complete = false;
                },
            }
        }
    }
    proof {
        assert(all.take(all.len() as int) =~= all);
    }
    Plan { steps, complete }
}

/// Whether `listing` is what a reading of an archive with these files gives:
/// its entries are the files of the archive from the first on, under their
/// names, up to the first file that does not open, and it is intact exactly
/// if there is no such file. Bytes that are no archive give an empty listing
/// that is not intact.
pub open spec fn lists(listing: Listing, files: Option<Seq<(Seq<char>, bool)>>) -> bool {
    match files {
        None => listing.entries@.len() == 0 && !listing.intact,
        Some(files) => {
            &&& listing.entries@.len() <= files.len()
            &&& listing.intact <==> listing.entries@.len() == files.len()
            &&& listing.entries@.len() < files.len() ==> !files[listing.entries@.len() as int].1
            &&& forall|i: int|
                0 <= i < listing.entries@.len() ==> files[i].1 && (
                #[trigger] listing.entries@[i]).name@ == files[i].0
        },
    }
}

/// Whether `plan` follows an archive with these files. Its steps stand for
/// the files of the archive from the first on: each is that of a file that
/// opens, a directory is created exactly where a name ends with a slash, and
/// no file is written without a name. The plan is complete exactly if it has
/// a step for every file, and it never ends before a directory that opens:
/// where it ends early, the next file does not open, or is a file whose base
/// name or contents could not be had. Bytes that are no archive give an
/// empty plan that is not complete.
pub open spec fn plan_follows(plan: Plan, files: Option<Seq<(Seq<char>, bool)>>) -> bool {
    &&& files_are_named(step_views(plan.steps@))
    &&& match files {
        None => plan.steps@.len() == 0 && !plan.complete,
        Some(files) => {
            &&& plan.steps@.len() <= files.len()
            &&& plan.complete <==> plan.steps@.len() == files.len()
            &&& plan.steps@.len() < files.len() ==> !(files[plan.steps@.len() as int].1
                && names_directory(files[plan.steps@.len() as int].0))
            &&& forall|i: int|
                0 <= i < plan.steps@.len() ==> files[i].1 && ((#[trigger] plan.steps@[i])
                    is CreateDir <==> names_directory(files[i].0))
        },
    }
}

/// An archive that holds nothing but directories that open is planned to its
/// end: there is a step for each of them, and the plan is complete. An
/// empty archive is the least of these.
pub proof fn lemma_directories_are_planned(plan: Plan, files: Seq<(Seq<char>, bool)>)
    requires
        plan_follows(plan, Some(files)),
        forall|i: int| 0 <= i < files.len() ==> (#[trigger] files[i]).1 && names_directory(
            files[i].0,
        ),
    ensures
        plan.complete,
        plan.steps@.len() == files.len(),
        forall|i: int| 0 <= i < plan.steps@.len() ==> (#[trigger] plan.steps@[i]) is CreateDir,
{
    if plan.steps@.len() < files.len() {
        assert(files[plan.steps@.len() as int].1);
    }
}

/// Reads one file of an open archive: its name, its path, the last component
/// of that path and its contents. Gives nothing where the file cannot be
/// found or opened; with the empty password, that is exactly where the
/// listing says so. Contents that cannot be unpacked are left out of the
/// entry, which is given all the same.
fn read_entry(
    archive: &mut zip::ZipArchive<std::io::Cursor<Vec<u8>>>,
    index: usize,
    password: &[u8],
) -> (r: Option<Entry>)
    ensures
        files_in(*final(archive)) == files_in(*old(archive)),
        r matches Some(entry) ==> index < files_in(*old(archive)).len() && entry.name@
            == files_in(*old(archive))[index as int].0,
        password@.len() == 0 ==> (r is Some <==> index < files_in(*old(archive)).len()
            && files_in(*old(archive))[index as int].1),
{
    let name = match entry_name(archive, index, password) {
        Some(name) => name,
        None => {
            return None;
        },
    };
    let path = match entry_path(archive, index, password) {
        Some(path) => path,
        None => {
            return None;
        },
    };
    let base = final_component(path.as_str());
    let contents = entry_contents(archive, index, password);
    Some(Entry { name, path, base, contents })
}

/// Reads the archive that `body` holds: every file in the order of the
/// archive, with its name, its path, its base name and its contents, up to
/// the first file that cannot be opened.
pub fn read_archive(body: Vec<u8>) -> (r: Listing)
    ensures
        lists(r, listed_files(body@)),
{
    let mut entries: Vec<Entry> = Vec::new();
    let mut archive = match open_archive(body) {
        Some(archive) => archive,
        None => {
            return Listing { entries, intact: false };
        },
    };
    let ghost files = files_in(archive);
    let password: Vec<u8> = Vec::new();
    let count = archive_len(&archive);
    let mut intact = true;
    let mut index: usize = 0;
    while index < count && intact
        invariant
            index <= count,
            count == files.len(),
            files == files_in(archive),
            password@.len() == 0,
            entries@.len() == index,
            !intact ==> index < count && !files[index as int].1,
            forall|i: int|
                0 <= i < index ==> files[i].1 && (#[trigger] entries@[i]).name@ == files[i].0,
        decreases count - index + if intact { 1int } else { 0int },
    {
        match read_entry(&mut archive, index, password.as_slice()) {
            Some(entry) => {
                entries.push(entry);
                index += 1;
            },
            None => {
                intact = false;
            },
        }
    }
    Listing { entries, intact }
}

/// Plans the extraction of the archive that `body` holds: reads it, then
/// plans the listing.
pub fn plan_extraction(body: Vec<u8>) -> (r: Plan)
    ensures
        plan_follows(r, listed_files(body@)),
{
    let listing = read_archive(body);
    let ghost read = entry_views(listing.entries@);
    let ghost intact = listing.intact;
    let r = plan(listing);
    proof {
        lemma_steps_of(read);
        assert forall|i: int| 0 <= i < r.steps@.len() implies ((#[trigger] r.steps@[i]) is CreateDir
            <==> names_directory(read[i].name)) by {
            assert(step_views(r.steps@)[i] == r.steps@[i]@);
            assert(step_of(read[i]) == Some(steps_of(read)[i]));
        }
        assert(step_views(r.steps@).len() == r.steps@.len());
        if r.steps@.len() < read.len() {
            assert(step_of(read[r.steps@.len() as int]) is None);
        }
    }
    r
}

} // verus!
