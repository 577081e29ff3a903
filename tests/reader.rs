use lesser::reader::PagedReader;
use memmap::{Mmap, MmapMut};
use std::io::Write;

fn source(bytes: &[u8]) -> Mmap {
    let mut mmap = MmapMut::map_anon(bytes.len().max(1)).expect("Anon mmap");
    (&mut mmap[..]).write(bytes).unwrap();
    mmap.make_read_only().unwrap()
}

#[test]
fn test_read_file_columned() {
    let test = b"firsts\nsecond\nthird";
    let mut mmap = MmapMut::map_anon(test.len()).expect("Anon mmap");
    (&mut mmap[..]).write(test).unwrap();
    let mmap = mmap.make_read_only().unwrap();
    let mut paged_reader = PagedReader::new(mmap);
    let expected_rows = 2;
    let (res, rows_red, cols_red) = paged_reader.read_file_paged(0, 0, expected_rows, 1);
    let expected = "f\n\rs";
    assert_eq!(expected, res);
    assert_eq!(expected_rows as usize, rows_red);
    assert_eq!(1, cols_red);
}

#[test]
fn test_read_half_file() {
    let test = b"firsts\nsecond\nthird";
    let mut mmap = MmapMut::map_anon(test.len()).expect("Anon mmap");
    (&mut mmap[..]).write(test).unwrap();
    let mmap = mmap.make_read_only().unwrap();
    let mut paged_reader = PagedReader::new(mmap);
    let expected_rows = 2;
    let (res, rows_red, cols_red) = paged_reader.read_file_paged(0, 0, expected_rows, 10);
    let expected = "firsts\n\rsecond";
    assert_eq!(expected, res);
    assert_eq!(expected_rows as usize, rows_red);
    assert_eq!(10, cols_red);
}

#[test]
fn test_read_whole_file() {
    let test = b"firsts\nsecond\nthird";
    let mut mmap = MmapMut::map_anon(test.len()).expect("Anon mmap");
    (&mut mmap[..]).write(test).unwrap();
    let mmap = mmap.make_read_only().unwrap();
    let mut paged_reader = PagedReader::new(mmap);
    let expected_rows = 3;
    let (res, rows_red, cols_red) = paged_reader.read_file_paged(0, 0, expected_rows, 10);
    let expected = String::from_utf8_lossy(test).replace("\n", "\n\r");
    assert_eq!(expected, res);
    assert_eq!(expected_rows as usize, rows_red);
    assert_eq!(10, cols_red);
}

#[test]
fn test_find_new_lines() {
    let test = br#"
abc"#;
    let expected = vec![(0, 0), (1, 4)];

    let mut mmap = MmapMut::map_anon(test.len()).expect("Anon mmap");
    (&mut mmap[..]).write(test).unwrap();
    let mut paged_reader = PagedReader::new(mmap.make_read_only().unwrap());
    let res = paged_reader.get_rows_indexes(10, 0);
    assert_eq!(res, expected);

    let no_newlines = br#""#;
    let expected = vec![(0, 1)];
    let mut mmap = MmapMut::map_anon(1).expect("Anon mmap");
    (&mut mmap[..]).write(no_newlines).unwrap();
    let mut paged_reader = PagedReader::new(mmap.make_read_only().unwrap());
    let res = paged_reader.get_rows_indexes(10, 0);
    assert_eq!(res, expected);
}

#[test]
fn rows_served_never_exceed_request_past_the_end() {
    let mut reader = PagedReader::new(source(b"firsts\nsecond\nthird"));
    let (res, rows, cols) = reader.read_file_paged(3, 0, 5, 10);
    assert_eq!("", res);
    assert_eq!(0, rows);
    assert_eq!(0, cols);
    let (res, rows, cols) = reader.read_file_paged(u64::MAX, 0, u16::MAX, u16::MAX);
    assert_eq!("", res);
    assert_eq!(0, rows);
    assert_eq!(0, cols);
}

#[test]
fn rows_served_is_clamped_to_what_exists() {
    let mut reader = PagedReader::new(source(b"firsts\nsecond\nthird"));
    let (res, rows, cols) = reader.read_file_paged(1, 0, 10, 10);
    assert_eq!("second\n\rthird", res);
    assert_eq!(2, rows);
    assert_eq!(10, cols);
}

#[test]
fn page_starts_at_the_requested_row() {
    let mut reader = PagedReader::new(source(b"firsts\nsecond\nthird"));
    let (res, rows, _) = reader.read_file_paged(1, 0, 1, 10);
    assert_eq!("second", res);
    assert_eq!(1, rows);
    let (res, rows, _) = reader.read_file_paged(2, 0, 1, 10);
    assert_eq!("third", res);
    assert_eq!(1, rows);
}

#[test]
fn column_window_skips_and_clips() {
    let mut reader = PagedReader::new(source(b"hello\nworld\nab"));
    let (res, rows, cols) = reader.read_file_paged(0, 2, 3, 2);
    assert_eq!("ll\n\rrl\n\r", res);
    assert_eq!(3, rows);
    assert_eq!(2, cols);
}

#[test]
fn no_visible_text_reports_zero_columns() {
    let mut reader = PagedReader::new(source(b"ab\ncd"));
    let (res, rows, cols) = reader.read_file_paged(0, 2, 2, 5);
    assert_eq!("\n\r", res);
    assert_eq!(2, rows);
    assert_eq!(0, cols);
}

#[test]
fn tabs_become_single_spaces() {
    let mut reader = PagedReader::new(source(b"a\tb\n\tc"));
    let (res, rows, _) = reader.read_file_paged(0, 0, 2, 10);
    assert_eq!("a b\n\r c", res);
    assert_eq!(2, rows);
}

#[test]
fn invalid_utf8_is_replaced() {
    let mut reader = PagedReader::new(source(&[b'a', 0xff, b'b']));
    let (res, rows, cols) = reader.read_file_paged(0, 0, 1, 10);
    assert_eq!("a\u{FFFD}b", res);
    assert_eq!(1, rows);
    assert_eq!(10, cols);
}

#[test]
fn buffer_without_terminator_is_one_line() {
    let mut reader = PagedReader::new(source(b"abc"));
    assert_eq!(vec![(0, 3)], reader.get_rows_indexes(10, 0));
    assert_eq!(1, reader.cached_rows());
}

#[test]
fn trailing_terminator_adds_no_empty_line() {
    let mut reader = PagedReader::new(source(b"a\nb\n"));
    assert_eq!(vec![(0, 1), (2, 3)], reader.get_rows_indexes(10, 0));
}

#[test]
fn discovery_looks_ahead_twice_the_missing_rows() {
    let mut reader = PagedReader::new(source(b"a\nb\nc\nd\ne\nf\n"));
    assert_eq!(0, reader.cached_rows());
    reader.ensure_rows_known(1);
    assert_eq!(2, reader.cached_rows());
    reader.ensure_rows_known(3);
    assert_eq!(4, reader.cached_rows());
    reader.ensure_rows_known(100);
    assert_eq!(6, reader.cached_rows());
}

#[test]
fn discovery_is_idempotent() {
    let mut reader = PagedReader::new(source(b"a\nb\nc\nd\ne\nf\ng"));
    reader.ensure_rows_known(2);
    let known = reader.cached_rows();
    assert_eq!(4, known);
    let first = reader.get_rows_indexes(4, 0);
    reader.ensure_rows_known(2);
    reader.ensure_rows_known(1);
    assert_eq!(known, reader.cached_rows());
    assert_eq!(first, reader.get_rows_indexes(4, 0));
    assert_eq!(known, reader.cached_rows());
}

#[test]
fn discovery_resumes_and_finds_the_trailing_line() {
    let mut reader = PagedReader::new(source(b"a\nb\nc\nlast"));
    reader.ensure_rows_known(1);
    assert_eq!(2, reader.cached_rows());
    assert_eq!(vec![(0, 1), (2, 3), (4, 5), (6, 10)], reader.get_rows_indexes(10, 0));
}
