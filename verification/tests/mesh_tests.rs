use voxelray::mesh::{
    fan_triangles, first_field_end, fix_idx, fix_idx_bytes, parse_i32, parse_obj_line, resolve,
    word_spans, ObjLine, ObjReader,
};

#[test]
fn parse_i32_reads_plain_numbers() {
    assert_eq!(parse_i32(b"0"), Some(0));
    assert_eq!(parse_i32(b"12"), Some(12));
    assert_eq!(parse_i32(b"007"), Some(7));
    assert_eq!(parse_i32(b"+7"), Some(7));
    assert_eq!(parse_i32(b"-3"), Some(-3));
    assert_eq!(parse_i32(b"-0"), Some(0));
}

#[test]
fn parse_i32_agrees_with_std_at_the_limits() {
    assert_eq!(parse_i32(b"2147483647"), Some(i32::MAX));
    assert_eq!(parse_i32(b"2147483648"), None);
    assert_eq!(parse_i32(b"-2147483648"), Some(i32::MIN));
    assert_eq!(parse_i32(b"-2147483649"), None);
    assert_eq!(parse_i32(b"99999999999999999999999999"), None);
    assert_eq!(parse_i32(b"0000000000000000000000001"), Some(1));
}

#[test]
fn parse_i32_refuses_what_is_no_number() {
    assert_eq!(parse_i32(b""), None);
    assert_eq!(parse_i32(b"-"), None);
    assert_eq!(parse_i32(b"+"), None);
    assert_eq!(parse_i32(b"1a"), None);
    assert_eq!(parse_i32(b" 1"), None);
    assert_eq!(parse_i32(b"1 "), None);
    assert_eq!(parse_i32(b"--1"), None);
    assert_eq!(parse_i32(b"+-1"), None);
    assert_eq!(parse_i32(b"1.5"), None);
}

#[test]
fn parse_i32_agrees_with_std_on_samples() {
    let samples = [
        "", "-", "+", "1", "-1", "+1", "10", "2147483647", "2147483648", "-2147483648",
        "-2147483649", "12x", "x12", "0", "-0", "+0", "0012", "1_000", "４",
    ];
    for s in samples.iter() {
        assert_eq!(parse_i32(s.as_bytes()), s.parse::<i32>().ok(), "{:?}", s);
    }
}

#[test]
fn resolve_counts_from_one_and_from_the_end() {
    assert_eq!(resolve(3, 1), Some(0));
    assert_eq!(resolve(3, 3), Some(2));
    assert_eq!(resolve(3, 4), None);
    assert_eq!(resolve(3, -1), Some(2));
    assert_eq!(resolve(3, -3), Some(0));
    assert_eq!(resolve(3, -4), None);
    assert_eq!(resolve(3, 0), None);
    assert_eq!(resolve(0, 1), None);
    assert_eq!(resolve(0, -1), None);
    assert_eq!(resolve(5, i32::MIN), None);
}

#[test]
fn fix_idx_resolves_text() {
    assert_eq!(fix_idx(4, "1"), Some(0));
    assert_eq!(fix_idx(4, "4"), Some(3));
    assert_eq!(fix_idx(4, "5"), None);
    assert_eq!(fix_idx(4, "-1"), Some(3));
    assert_eq!(fix_idx(4, "-4"), Some(0));
    assert_eq!(fix_idx(4, "-5"), None);
    assert_eq!(fix_idx(4, "0"), None);
    assert_eq!(fix_idx(4, ""), None);
    assert_eq!(fix_idx(4, "abc"), None);
    assert_eq!(fix_idx_bytes(4, b"2"), Some(1));
}

#[test]
fn word_spans_finds_the_words() {
    assert_eq!(word_spans(b""), vec![]);
    assert_eq!(word_spans(b"   \t "), vec![]);
    assert_eq!(word_spans(b"v"), vec![(0, 1)]);
    assert_eq!(word_spans(b"v 1.0  2.5\t3"), vec![(0, 1), (2, 5), (7, 10), (11, 12)]);
    assert_eq!(word_spans(b"  f 1 2 3 \r\n"), vec![(2, 3), (4, 5), (6, 7), (8, 9)]);
}

#[test]
fn first_field_ends_at_the_slash() {
    let line = b"f 12/3/4 5//6 7";
    assert_eq!(first_field_end(line, 2, 8), 4);
    assert_eq!(first_field_end(line, 9, 13), 10);
    assert_eq!(first_field_end(line, 14, 15), 15);
    assert_eq!(first_field_end(b"/1", 0, 2), 0);
    assert_eq!(first_field_end(b"abc", 1, 1), 1);
}

#[test]
fn fan_of_a_quad_is_two_triangles() {
    assert_eq!(fan_triangles(&vec![4, 5, 6, 7]), vec![(4, 5, 6), (4, 6, 7)]);
}

#[test]
fn fan_of_a_triangle_is_itself() {
    assert_eq!(fan_triangles(&vec![2, 0, 1]), vec![(2, 0, 1)]);
}

#[test]
fn fan_of_fewer_than_three_corners_is_empty() {
    assert!(fan_triangles(&Vec::new()).is_empty());
    assert!(fan_triangles(&vec![1]).is_empty());
    assert!(fan_triangles(&vec![1, 2]).is_empty());
}

#[test]
fn fan_of_a_pentagon() {
    assert_eq!(
        fan_triangles(&vec![0, 1, 2, 3, 4]),
        vec![(0, 1, 2), (0, 2, 3), (0, 3, 4)]
    );
}

fn vertex_spans(line: &[u8]) -> Option<[(usize, usize); 3]> {
    match parse_obj_line(line, 0) {
        ObjLine::Vertex { x, y, z } => Some([x, y, z]),
        _ => None,
    }
}

fn face_of(line: &[u8], nverts: usize) -> Option<Vec<usize>> {
    match parse_obj_line(line, nverts) {
        ObjLine::Face { indices } => Some(indices),
        _ => None,
    }
}

fn is_other(line: &[u8]) -> bool {
    matches!(parse_obj_line(line, 10), ObjLine::Other)
}

#[test]
fn vertex_line_gives_its_coordinates() {
    let line = b"v 1.0 -2.5 3e2";
    let [x, y, z] = vertex_spans(line).unwrap();
    assert_eq!(&line[x.0..x.1], b"1.0");
    assert_eq!(&line[y.0..y.1], b"-2.5");
    assert_eq!(&line[z.0..z.1], b"3e2");
}

#[test]
fn vertex_line_may_be_indented_and_carry_more() {
    let line = b"  v 1 2 3 1.0\r";
    let [x, y, z] = vertex_spans(line).unwrap();
    assert_eq!((x, y, z), ((4, 5), (6, 7), (8, 9)));
}

#[test]
fn vertex_line_with_too_few_words_is_passed_over() {
    assert!(is_other(b"v 1 2"));
    assert!(is_other(b"v"));
    assert!(is_other(b"v "));
}

#[test]
fn letter_must_be_followed_by_a_blank() {
    assert!(is_other(b"v\t1 2 3"));
    assert!(is_other(b"f\t1 2 3"));
    assert!(is_other(b"vn 0 0 1"));
    assert!(is_other(b"vt 0 0 1"));
    assert!(is_other(b"fx 1 2 3"));
}

#[test]
fn comments_and_other_statements_are_passed_over() {
    assert!(is_other(b""));
    assert!(is_other(b"   "));
    assert!(is_other(b"# v 1 2 3"));
    assert!(is_other(b"usemtl stone"));
    assert!(is_other(b"o bunny"));
    assert!(is_other(b"g group"));
}

#[test]
fn face_line_resolves_each_form_of_a_corner() {
    assert_eq!(face_of(b"f 1 2 3", 3), Some(vec![0, 1, 2]));
    assert_eq!(face_of(b"f 1/1 2/2 3/3", 3), Some(vec![0, 1, 2]));
    assert_eq!(face_of(b"f 1//1 2//2 3//3", 3), Some(vec![0, 1, 2]));
    assert_eq!(face_of(b"f 1/1/1 2/2/2 3/3/3", 3), Some(vec![0, 1, 2]));
    assert_eq!(face_of(b"f -1 -2 -3", 5), Some(vec![4, 3, 2]));
}

#[test]
fn face_line_drops_corners_that_name_nothing() {
    assert_eq!(face_of(b"f 1 9 2 0 3 x /4", 3), Some(vec![0, 1, 2]));
    assert_eq!(face_of(b"f 1 2 3", 0), Some(vec![]));
    assert_eq!(face_of(b"f 4", 3), Some(vec![]));
}

#[test]
fn reader_counts_vertices_and_collects_triangles() {
    let mut r = ObjReader::new();
    assert_eq!(r.nverts, 0);
    assert!(r.feed(b"# a square").is_none());
    assert!(r.feed(b"v 0 0 0").is_some());
    assert!(r.feed(b"v 1 0 0").is_some());
    assert!(r.feed(b"v 1 1 0").is_some());
    assert!(r.feed(b"f 1 2 3 4").is_none());
    assert_eq!(r.triangles, vec![(0, 1, 2)]);
    assert!(r.feed(b"v 0 1 0").is_some());
    assert_eq!(r.nverts, 4);
    assert!(r.feed(b"f 1 2 3 4").is_none());
    assert_eq!(r.triangles, vec![(0, 1, 2), (0, 1, 2), (0, 2, 3)]);
    assert!(r.feed(b"f -1 -2 -3").is_none());
    assert_eq!(r.triangles.len(), 4);
    assert_eq!(r.triangles[3], (3, 2, 1));
    assert!(r.feed(b"f 1 2").is_none());
    assert!(r.feed(b"v 1 2").is_none());
    assert_eq!(r.nverts, 4);
    assert_eq!(r.triangles.len(), 4);
}

#[test]
fn reader_gives_back_the_coordinate_words() {
    let mut r = ObjReader::new();
    let line = b"v 0.5 1.25 -3";
    let (x, y, z) = r.feed(line).unwrap();
    assert_eq!(&line[x.0..x.1], b"0.5");
    assert_eq!(&line[y.0..y.1], b"1.25");
    assert_eq!(&line[z.0..z.1], b"-3");
    assert_eq!(r.nverts, 1);
}

#[test]
fn triangles_of_the_reader_stay_within_the_vertices() {
    let mut r = ObjReader::new();
    let lines: [&[u8]; 7] =
        [b"v 0 0 0", b"f 1 1 1", b"f 1 2 3", b"v 1 0 0", b"v 0 1 0", b"f -3 -2 -1 5", b"f 3 2 1"];
    for l in lines.iter() {
        r.feed(l);
        for t in r.triangles.iter() {
            assert!(t.0 < r.nverts && t.1 < r.nverts && t.2 < r.nverts);
        }
    }
    assert_eq!(r.triangles, vec![(0, 0, 0), (0, 1, 2), (2, 1, 0)]);
}
