use undetected_chromedriver::patcher::{
    draw_indices, find_markers, has_marker_at, letter_at, patch, patch_with, ALPHABET_LEN,
    MARKER_LEN, SAMPLE_LIMIT, WINDOW_LEN,
};

fn in_some_window(image: &[u8], x: usize) -> bool {
    find_markers(&image.to_vec()).iter().any(|&p| p + 4 <= x && x < p + 22)
}

fn is_sampled(c: u8) -> bool {
    (b'a'..=b'z').contains(&c) || (b'A'..=b'V').contains(&c)
}

#[test]
fn constants_are_those_of_the_marker_and_the_alphabet() {
    assert_eq!(MARKER_LEN, 4);
    assert_eq!(WINDOW_LEN, 18);
    assert_eq!(ALPHABET_LEN, 52);
    assert_eq!(SAMPLE_LIMIT, 48);
}

#[test]
fn letters_follow_the_alphabet() {
    assert_eq!(letter_at(0), b'a');
    assert_eq!(letter_at(25), b'z');
    assert_eq!(letter_at(26), b'A');
    assert_eq!(letter_at(47), b'V');
    assert_eq!(letter_at(48), b'W');
    assert_eq!(letter_at(51), b'Z');
    let all: Vec<u8> = (0..52).map(letter_at).collect();
    assert_eq!(all, b"abcdefghijklmnopqrstuvwxyzABCDEFGHIJKLMNOPQRSTUVWXYZ".to_vec());
}

#[test]
fn marker_is_recognised_only_where_it_fits() {
    let image = b"abcdc_".to_vec();
    assert!(has_marker_at(&image, 2));
    assert!(!has_marker_at(&image, 0));
    assert!(!has_marker_at(&image, 3));
    assert!(!has_marker_at(&image, 100));
    assert!(!has_marker_at(&b"cdc".to_vec(), 0));
    assert!(!has_marker_at(&Vec::new(), 0));
    assert!(!has_marker_at(&b"cdc-".to_vec(), 0));
    assert!(!has_marker_at(&b"cdC_".to_vec(), 0));
}

#[test]
fn scan_finds_every_marker_once_in_ascending_order() {
    let image = b"cdc_..cdc_cdc_....xcdc.cdc_".to_vec();
    assert_eq!(find_markers(&image), vec![0, 6, 10, 23]);
}

#[test]
fn scan_finds_a_marker_at_the_very_end() {
    assert_eq!(find_markers(&b"abcdc_".to_vec()), vec![2]);
}

#[test]
fn scan_of_short_images_finds_nothing() {
    assert_eq!(find_markers(&Vec::new()), Vec::<usize>::new());
    assert_eq!(find_markers(&b"c".to_vec()), Vec::<usize>::new());
    assert_eq!(find_markers(&b"cdc".to_vec()), Vec::<usize>::new());
    assert_eq!(find_markers(&b"cdc_".to_vec()), vec![0]);
}

#[test]
fn patch_with_writes_the_drawn_letters_into_the_window() {
    let mut image = b"xxcdc_".to_vec();
    image.extend_from_slice(&[b'.'; 20]);
    let draws: Vec<usize> = (0..18).collect();
    let mut expected = b"xxcdc_abcdefghijklmnopqr".to_vec();
    expected.extend_from_slice(b"..");
    assert_eq!(patch_with(&image, &draws), Some(expected));
}

#[test]
fn patch_with_lets_the_later_marker_win_where_windows_overlap() {
    let mut image = b"cdc_cdc_".to_vec();
    image.extend_from_slice(&[b'.'; 30]);
    let mut draws = vec![0usize; 18];
    draws.extend_from_slice(&[26usize; 18]);
    let mut expected = b"cdc_aaaa".to_vec();
    expected.extend_from_slice(&[b'A'; 18]);
    expected.extend_from_slice(&[b'.'; 12]);
    assert_eq!(patch_with(&image, &draws), Some(expected));
}

#[test]
fn patch_with_cuts_a_window_at_the_end_of_the_image() {
    let image = b"....cdc_12345".to_vec();
    let draws: Vec<usize> = (30..48).collect();
    assert_eq!(patch_with(&image, &draws), Some(b"....cdc_EFGHI".to_vec()));
}

#[test]
fn patch_with_leaves_a_marker_free_image_as_it_is() {
    let image = b"no marker in here: cd c_ cdc".to_vec();
    assert_eq!(patch_with(&image, &Vec::new()), Some(image.clone()));
    assert_eq!(patch_with(&Vec::new(), &Vec::new()), Some(Vec::new()));
}

#[test]
fn patch_with_refuses_draws_that_do_not_fit() {
    let mut image = b"cdc_".to_vec();
    image.extend_from_slice(&[0u8; 18]);
    assert_eq!(patch_with(&image, &vec![0usize; 17]), None);
    assert_eq!(patch_with(&image, &vec![0usize; 19]), None);
    assert_eq!(patch_with(&image, &vec![0usize; 36]), None);
    assert_eq!(patch_with(&image, &Vec::new()), None);
    let mut draws = vec![0usize; 18];
    draws[17] = 52;
    assert_eq!(patch_with(&image, &draws), None);
    draws[17] = 51;
    assert!(patch_with(&image, &draws).is_some());
    assert_eq!(patch_with(&b"plain".to_vec(), &vec![0usize; 18]), None);
}

#[test]
fn drawn_indices_come_eighteen_to_a_marker_and_stay_below_the_limit() {
    assert_eq!(draw_indices(0), Vec::<usize>::new());
    let draws = draw_indices(7);
    assert_eq!(draws.len(), 126);
    assert!(draws.iter().all(|&d| d < 48));
}

#[test]
fn drawn_indices_vary() {
    let draws = draw_indices(20);
    assert!(draws.iter().any(|&d| d != draws[0]));
}

#[test]
fn patch_keeps_length_and_everything_outside_the_windows() {
    let mut image = Vec::new();
    for i in 0..400usize {
        image.push((i % 251) as u8);
        if i % 57 == 0 {
            image.extend_from_slice(b"cdc_");
        }
        if i % 131 == 0 {
            image.extend_from_slice(b"cdc_cdc_");
        }
    }
    image.extend_from_slice(b"cdc_tail");
    let out = patch(&image);
    assert_eq!(out.len(), image.len());
    for x in 0..image.len() {
        if in_some_window(&image, x) {
            assert!(is_sampled(out[x]), "byte {} is {}", x, out[x]);
        } else {
            assert_eq!(out[x], image[x], "byte {} changed", x);
        }
    }
}

#[test]
fn patch_rewrites_the_whole_window() {
    let mut image = b"cdc_".to_vec();
    image.extend_from_slice(&[0u8; 18]);
    image.extend_from_slice(&[0u8; 3]);
    let out = patch(&image);
    assert_eq!(&out[..4], b"cdc_");
    assert!(out[4..22].iter().all(|&c| is_sampled(c)));
    assert_eq!(&out[22..], &[0u8; 3]);
}

#[test]
fn patch_of_a_marker_free_image_is_the_image() {
    let image: Vec<u8> = (0..=255u8).cycle().take(5000).collect();
    assert!(find_markers(&image).is_empty());
    assert_eq!(patch(&image), image);
    assert_eq!(patch(&Vec::new()), Vec::<u8>::new());
    assert_eq!(patch(&b"cd".to_vec()), b"cd".to_vec());
}

#[test]
fn patch_removes_markers_that_lie_in_a_window() {
    let mut image = b"cdc_cdc_".to_vec();
    image.extend_from_slice(&[b'.'; 30]);
    let out = patch(&image);
    assert_eq!(find_markers(&out), vec![0]);
}
