//! Reading of triangle meshes in the Wavefront text format, as far as whole
//! numbers go: the separation of a line into words, the vertex numbers of a
//! face and their resolution against the vertices read so far, and the
//! division of a polygon into a fan of triangles.

use vstd::prelude::*;
use vstd::string::StringSliceAdditionalSpecFns;

verus! {

/// Whether `b` separates words: a blank, a tab, a line feed, a vertical tab, a
/// form feed or a carriage return.
pub open spec fn is_space(b: u8) -> bool {
    b == 0x20 || (0x09 <= b && b <= 0x0d)
}

/// Whether `b` is a decimal digit.
pub open spec fn is_digit(b: u8) -> bool {
    0x30 <= b && b <= 0x39
}

/// Whether every byte of `s` is a decimal digit.
pub open spec fn all_digits(s: Seq<u8>) -> bool {
    forall|i: int| 0 <= i < s.len() ==> is_digit(#[trigger] s[i])
}

/// The number that the digits of `s` write in base ten.
pub open spec fn digits_value(s: Seq<u8>) -> int
    decreases s.len(),
{
    if s.len() == 0 {
        0
    } else {
        digits_value(s.drop_last()) * 10 + (s.last() - 0x30)
    }
}

/// The digits of a number without its sign, if it has one.
pub open spec fn unsigned_part(s: Seq<u8>) -> Seq<u8> {
    if s.len() > 0 && (s[0] == 0x2d || s[0] == 0x2b) {
        s.subrange(1, s.len() as int)
    } else {
        s
    }
}

/// The whole number that `s` writes: an optional `+` or `-`, then at least one
/// digit and nothing else, with a value that fits 32 bits with sign.
pub open spec fn parse_i32_spec(s: Seq<u8>) -> Option<int> {
    let digits = unsigned_part(s);
    let v = if s.len() > 0 && s[0] == 0x2d {
        -digits_value(digits)
    } else {
        digits_value(digits)
    };
    if digits.len() > 0 && all_digits(digits) && -0x8000_0000 <= v <= 0x7fff_ffff {
        Some(v)
    } else {
        None
    }
}

/// The place in a list of `len` vertices that the number `i` of a face names:
/// a positive number counts from the first vertex, starting at one; a negative
/// number counts back from the last; zero names nothing.
pub open spec fn resolve_index(len: int, i: int) -> Option<int> {
    if i > 0 && i - 1 < len {
        Some(i - 1)
    } else if i < 0 && -i <= len {
        Some(len + i)
    } else {
        None
    }
}

/// The place in a list of `len` vertices that the text `raw` names, if it
/// writes a number and that number names one.
pub open spec fn fix_idx_spec(len: int, raw: Seq<u8>) -> Option<int> {
    match parse_i32_spec(raw) {
        Some(i) => resolve_index(len, i),
        None => None,
    }
}

/// A longer row of digits writes no smaller number.
proof fn lemma_digits_monotone(s: Seq<u8>, k: int)
    requires
        0 <= k <= s.len(),
        all_digits(s),
    ensures
        0 <= digits_value(s.subrange(0, k)) <= digits_value(s),
    decreases s.len() - k,
{
    if k == s.len() {
        assert(s.subrange(0, k) =~= s);
        lemma_digits_nonnegative(s);
    } else {
        lemma_digits_monotone(s, k + 1);
        let t = s.subrange(0, k + 1);
        assert(t.drop_last() =~= s.subrange(0, k));
        assert(is_digit(s[k]));
        assert(t.last() == s[k]);
        lemma_digits_nonnegative(s.subrange(0, k));
    }
}

proof fn lemma_digits_nonnegative(s: Seq<u8>)
    requires
        all_digits(s),
    ensures
        0 <= digits_value(s),
    decreases s.len(),
{
    if s.len() > 0 {
        assert(is_digit(s[s.len() - 1]));
        lemma_digits_nonnegative(s.drop_last());
    }
}

/// The whole number that `raw` writes, if it writes one.
pub fn parse_i32(raw: &[u8]) -> (r: Option<i32>)
    ensures
        r.is_some() == parse_i32_spec(raw@).is_some(),
        r matches Some(v) ==> parse_i32_spec(raw@) == Some(v as int),
{
    let n: usize = raw.len();
    if n == 0 {
        return None;
    }
    let negative: bool = raw[0] == 0x2d;
    let first: usize = if raw[0] == 0x2d || raw[0] == 0x2b { 1 } else { 0 };
    if first == n {
        return None;
    }
    let ghost digits = unsigned_part(raw@);
    proof {
        assert(digits =~= raw@.subrange(first as int, n as int));
    }
    let mut acc: i64 = 0;
    let mut i: usize = first;
    while i < n
        invariant
            n == raw@.len(),
            first <= i <= n,
            digits == unsigned_part(raw@),
            digits == raw@.subrange(first as int, n as int),
            negative == (raw@[0] == 0x2d),
            all_digits(digits.subrange(0, i - first)),
            acc == digits_value(digits.subrange(0, i - first)),
            0 <= acc <= 0x8000_0000,
        decreases n - i,
    {
        let b: u8 = raw[i];
        if b < 0x30 || b > 0x39 {
            proof {
                assert(digits[i - first] == b);
            }
            return None;
        }
        let next: i64 = acc * 10 + ((b - 0x30) as i64);
        proof {
            let t = digits.subrange(0, i + 1 - first);
            assert(t.drop_last() =~= digits.subrange(0, i - first));
            assert(t.last() == b);
            assert(all_digits(t)) by {
                assert forall|k: int| 0 <= k < t.len() implies is_digit(#[trigger] t[k]) by {
                    if k < t.len() - 1 {
                        assert(t[k] == digits.subrange(0, i - first)[k]);
                    }
                }
            }
        }
        if next > 0x8000_0000 {
            proof {
                if all_digits(digits) {
                    lemma_digits_monotone(digits, i + 1 - first);
                }
            }
            return None;
        }
        acc = next;
        i += 1;
    }
    proof {
        assert(digits.subrange(0, n - first) =~= digits);
    }
    if negative {
        Some((-acc) as i32)
    } else if acc > 0x7fff_ffff {
        None
    } else {
        Some(acc as i32)
    }
}

/// The place in a list of `len` vertices that the number `i` of a face names.
pub fn resolve(len: usize, i: i32) -> (r: Option<usize>)
    ensures
        r.is_some() == resolve_index(len as int, i as int).is_some(),
        r matches Some(u) ==> resolve_index(len as int, i as int) == Some(u as int),
{
    if i > 0 {
        let u: usize = (i - 1) as usize;
        if u < len {
            Some(u)
        } else {
            None
        }
    } else if i < 0 {
        let back: u64 = (-(i as i64)) as u64;
        if back <= len as u64 {
            Some(len - (back as usize))
        } else {
            None
        }
    } else {
        None
    }
}

/// The place in a list of `len` vertices that the text `raw` of a face names.
pub fn fix_idx(len: usize, raw: &str) -> (r: Option<usize>)
    ensures
        r.is_some() == fix_idx_spec(len as int, raw.spec_bytes()).is_some(),
        r matches Some(u) ==> fix_idx_spec(len as int, raw.spec_bytes()) == Some(u as int),
{
    fix_idx_bytes(len, raw.as_bytes())
}

/// The place in a list of `len` vertices that the bytes `raw` of a face name.
pub fn fix_idx_bytes(len: usize, raw: &[u8]) -> (r: Option<usize>)
    ensures
        r.is_some() == fix_idx_spec(len as int, raw@).is_some(),
        r matches Some(u) ==> fix_idx_spec(len as int, raw@) == Some(u as int),
{
    match parse_i32(raw) {
        Some(i) => resolve(len, i),
        None => None,
    }
}

/// The words of `s` as pairs of a start and an end: the longest stretches
/// without a separator, from the left.
pub open spec fn spans(s: Seq<u8>) -> Seq<(int, int)>
    decreases s.len(),
{
    if s.len() == 0 {
        Seq::empty()
    } else {
        let n = s.len() - 1;
        let rest = spans(s.drop_last());
        if is_space(s[n]) {
            rest
        } else if n >= 1 && !is_space(s[n - 1]) {
            rest.drop_last().push((rest.last().0, n + 1))
        } else {
            rest.push((n, n + 1))
        }
    }
}

/// Pairs of machine numbers as pairs of whole numbers.
pub open spec fn as_int_spans(v: Seq<(usize, usize)>) -> Seq<(int, int)> {
    Seq::new(v.len(), |k: int| (v[k].0 as int, v[k].1 as int))
}

/// The words of `line` as pairs of a start and an end.
pub fn word_spans(line: &[u8]) -> (out: Vec<(usize, usize)>)
    ensures
        as_int_spans(out@) == spans(line@),
        forall|k: int| 0 <= k < out@.len() ==> (#[trigger] out@[k]).0 < out@[k].1 <= line@.len(),
{
    let n: usize = line.len();
    let mut out: Vec<(usize, usize)> = Vec::new();
    let mut start: usize = 0;
    let mut in_word: bool = false;
    let mut i: usize = 0;
    proof {
        assert(line@.subrange(0, 0) =~= Seq::<u8>::empty());
        assert(as_int_spans(out@) =~= spans(line@.subrange(0, 0)));
    }
    while i < n
        invariant
            n == line@.len(),
            i <= n,
            in_word <==> (i > 0 && !is_space(line@[i - 1])),
            in_word ==> start < i,
            forall|k: int| 0 <= k < out@.len() ==> (#[trigger] out@[k]).0 < out@[k].1 <= i,
            spans(line@.subrange(0, i as int)) == (if in_word {
                as_int_spans(out@).push((start as int, i as int))
            } else {
                as_int_spans(out@)
            }),
        decreases n - i,
    {
        let b: u8 = line[i];
        let ghost before = as_int_spans(out@);
        proof {
            let p = line@.subrange(0, i + 1);
            assert(p.drop_last() =~= line@.subrange(0, i as int));
            assert(p.last() == b);
            if i > 0 {
                assert(p[i - 1] == line@[i - 1]);
            }
        }
        if b == 0x20 || (0x09 <= b && b <= 0x0d) {
            if in_word {
                out.push((start, i));
                in_word = false;
                proof {
                    assert(as_int_spans(out@) =~= before.push((start as int, i as int)));
                }
            }
        } else {
            if !in_word {
                start = i;
                in_word = true;
            } else {
                proof {
                    let rest = before.push((start as int, i as int));
                    assert(rest.drop_last() =~= before);
                }
            }
        }
        i += 1;
    }
    proof {
        assert(line@.subrange(0, n as int) =~= line@);
    }
    if in_word {
        let ghost before = as_int_spans(out@);
        out.push((start, n));
        proof {
            assert(as_int_spans(out@) =~= before.push((start as int, n as int)));
        }
    }
    out
}

/// Where the first field of the word from `a` to `b` ends: at its first
/// slash, or at `b` where it has none.
pub open spec fn field_end(s: Seq<u8>, a: int, b: int) -> int
    decreases b - a,
{
    if a >= b || s[a] == 0x2f {
        a
    } else {
        field_end(s, a + 1, b)
    }
}

/// Where the first field of the word from `a` to `b` ends.
pub fn first_field_end(line: &[u8], a: usize, b: usize) -> (e: usize)
    requires
        a <= b <= line@.len(),
    ensures
        e == field_end(line@, a as int, b as int),
        a <= e <= b,
{
    let mut e: usize = a;
    while e < b && line[e] != 0x2f
        invariant
            a <= e <= b <= line@.len(),
            field_end(line@, a as int, b as int) == field_end(line@, e as int, b as int),
        decreases b - e,
    {
        e += 1;
    }
    e
}

/// The vertices that the words after the first name, among `nverts` vertices,
/// counting the first `n` words of the line: each word gives its first field,
/// and a word that names no vertex is passed over.
pub open spec fn face_indices(s: Seq<u8>, sp: Seq<(int, int)>, nverts: int, n: nat) -> Seq<usize>
    decreases n,
{
    if n <= 1 {
        Seq::empty()
    } else {
        let prev = face_indices(s, sp, nverts, (n - 1) as nat);
        let a = sp[n - 1].0;
        let b = sp[n - 1].1;
        match fix_idx_spec(nverts, s.subrange(a, field_end(s, a, b))) {
            Some(i) => prev.push(i as usize),
            None => prev,
        }
    }
}

/// Every vertex that a face names is one of the vertices read so far.
pub proof fn lemma_face_indices_in_range(s: Seq<u8>, sp: Seq<(int, int)>, nverts: int, n: nat)
    requires
        0 <= nverts <= usize::MAX,
    ensures
        forall|k: int|
            0 <= k < face_indices(s, sp, nverts, n).len() ==> (#[trigger] face_indices(
                s,
                sp,
                nverts,
                n,
            )[k]) < nverts,
    decreases n,
{
    if n > 1 {
        lemma_face_indices_in_range(s, sp, nverts, (n - 1) as nat);
        let prev = face_indices(s, sp, nverts, (n - 1) as nat);
        let cur = face_indices(s, sp, nverts, n);
        assert forall|k: int| 0 <= k < cur.len() implies (#[trigger] cur[k]) < nverts by {
            if k < prev.len() {
                assert(cur[k] == prev[k]);
            }
        }
    }
}

/// The triangles of a polygon cut into a fan about its first corner; fewer
/// than three corners give none.
pub open spec fn fan_spec(face: Seq<usize>) -> Seq<(usize, usize, usize)> {
    if face.len() < 3 {
        Seq::empty()
    } else {
        Seq::new((face.len() - 2) as nat, |k: int| (face[0], face[k + 1], face[k + 2]))
    }
}

/// The triangles of a polygon cut into a fan about its first corner.
pub fn fan_triangles(face_idx: &Vec<usize>) -> (tris: Vec<(usize, usize, usize)>)
    ensures
        tris@ == fan_spec(face_idx@),
{
    let mut tris: Vec<(usize, usize, usize)> = Vec::new();
    let n: usize = face_idx.len();
    if n < 3 {
        return tris;
    }
    let v0: usize = face_idx[0];
    let mut k: usize = 1;
    while k < n - 1
        invariant
            n == face_idx@.len(),
            n >= 3,
            1 <= k <= n - 1,
            v0 == face_idx@[0],
            tris@.len() == k - 1,
            forall|j: int|
                0 <= j < k - 1 ==> #[trigger] tris@[j] == (v0, face_idx@[j + 1], face_idx@[j + 2]),
        decreases n - k,
    {
        tris.push((v0, face_idx[k], face_idx[k + 1]));
        k += 1;
    }
    proof {
        assert(tris@ =~= fan_spec(face_idx@));
    }
    tris
}

/// Whether the line, without the separators round it, begins with `letter`
/// and a blank.
pub open spec fn starts_with_letter(s: Seq<u8>, letter: u8) -> bool {
    let sp = spans(s);
    &&& sp.len() >= 2
    &&& sp[0].1 == sp[0].0 + 1
    &&& s[sp[0].0] == letter
    &&& s[sp[0].1] == 0x20
}

/// Whether the line gives a vertex: it begins with `v` and a blank and has
/// three more words at least.
pub open spec fn is_vertex_line(s: Seq<u8>) -> bool {
    starts_with_letter(s, 0x76) && spans(s).len() >= 4
}

/// Whether the line gives a face: it begins with `f` and a blank.
pub open spec fn is_face_line(s: Seq<u8>) -> bool {
    starts_with_letter(s, 0x66)
}

/// What one line of a mesh file says.
#[derive(Debug)]
pub enum ObjLine {
    /// A vertex: where in the line its three coordinates are written.
    Vertex { x: (usize, usize), y: (usize, usize), z: (usize, usize) },
    /// A face: the vertices it names, as places in the list of vertices.
    Face { indices: Vec<usize> },
    /// Anything else: a comment, an empty line, a statement that is not used.
    Other,
}

/// What `line` says, with `nverts` vertices read before it.
pub fn parse_obj_line(line: &[u8], nverts: usize) -> (r: ObjLine)
    ensures
        match r {
            ObjLine::Vertex { x, y, z } => {
                &&& is_vertex_line(line@)
                &&& (x.0 as int, x.1 as int) == spans(line@)[1]
                &&& (y.0 as int, y.1 as int) == spans(line@)[2]
                &&& (z.0 as int, z.1 as int) == spans(line@)[3]
                &&& x.0 < x.1 <= line@.len()
                &&& y.0 < y.1 <= line@.len()
                &&& z.0 < z.1 <= line@.len()
            },
            ObjLine::Face { indices } => {
                &&& is_face_line(line@)
                &&& indices@ == face_indices(
                    line@,
                    spans(line@),
                    nverts as int,
                    spans(line@).len(),
                )
            },
            ObjLine::Other => !is_vertex_line(line@) && !is_face_line(line@),
        },
{
    let sp: Vec<(usize, usize)> = word_spans(line);
    let ghost isp = spans(line@);
    let nwords: usize = sp.len();
    if nwords < 2 {
        return ObjLine::Other;
    }
    let first: (usize, usize) = sp[0];
    proof {
        assert(as_int_spans(sp@)[0] == isp[0]);
        assert(as_int_spans(sp@)[1] == isp[1]);
        assert(sp@[1].0 < sp@[1].1 <= line@.len());
        lemma_spans_ordered(line@, 0, 1);
    }
    if first.1 != first.0 + 1 || line[first.1] != 0x20 {
        return ObjLine::Other;
    }
    let letter: u8 = line[first.0];
    if letter == 0x76 {
        if nwords < 4 {
            return ObjLine::Other;
        }
        proof {
            assert(as_int_spans(sp@)[2] == isp[2]);
            assert(as_int_spans(sp@)[3] == isp[3]);
        }
        ObjLine::Vertex { x: sp[1], y: sp[2], z: sp[3] }
    } else if letter == 0x66 {
        let mut indices: Vec<usize> = Vec::new();
        let mut k: usize = 1;
        while k < nwords
            invariant
                nwords == sp@.len(),
                1 <= k <= nwords,
                isp == spans(line@),
                as_int_spans(sp@) == isp,
                forall|j: int| 0 <= j < sp@.len() ==> (#[trigger] sp@[j]).0 < sp@[j].1 <= line@.len(),
                indices@ == face_indices(line@, isp, nverts as int, k as nat),
            decreases nwords - k,
        {
            let a: usize = sp[k].0;
            let b: usize = sp[k].1;
            proof {
                assert(as_int_spans(sp@)[k as int] == isp[k as int]);
            }
            let e: usize = first_field_end(line, a, b);
            let field: &[u8] = vstd::slice::slice_subrange(line, a, e);
            match fix_idx_bytes(nverts, field) {
                Some(ix) => {
                    indices.push(ix);
                },
                None => {},
            }
            k += 1;
        }
        ObjLine::Face { indices }
    } else {
        ObjLine::Other
    }
}

/// Words follow one another from the left, with a separator between them.
pub proof fn lemma_spans_ordered(s: Seq<u8>, j: int, k: int)
    requires
        0 <= j < k < spans(s).len(),
    ensures
        0 <= spans(s)[j].0 < spans(s)[j].1 < spans(s)[k].0 < spans(s)[k].1 <= s.len(),
{
    lemma_spans_shape(s);
}

/// Each word is a stretch of the text that is not empty, words follow one
/// another from the left, and the last word ends where the text does exactly
/// if the text does not end in a separator.
pub proof fn lemma_spans_shape(s: Seq<u8>)
    ensures
        forall|k: int|
            0 <= k < spans(s).len() ==> 0 <= (#[trigger] spans(s)[k]).0 < spans(s)[k].1 <= s.len(),
        forall|j: int, k: int|
            0 <= j < k < spans(s).len() ==> (#[trigger] spans(s)[j]).1 < (#[trigger] spans(
                s,
            )[k]).0,
        s.len() > 0 && !is_space(s.last()) ==> spans(s).len() > 0 && spans(s).last().1 == s.len(),
        s.len() > 0 && is_space(s.last()) && spans(s).len() > 0 ==> spans(s).last().1 < s.len(),
    decreases s.len(),
{
    if s.len() > 0 {
        let p = s.drop_last();
        lemma_spans_shape(p);
        let n = s.len() - 1;
        let rest = spans(p);
        if is_space(s[n]) {
        } else if n >= 1 && !is_space(s[n - 1]) {
            assert(p.last() == s[n - 1]);
            let out = rest.drop_last().push((rest.last().0, n + 1));
            assert(spans(s) == out);
            assert forall|k: int| 0 <= k < out.len() implies 0 <= (#[trigger] out[k]).0 < out[k].1
                <= s.len() by {
                if k < out.len() - 1 {
                    assert(out[k] == rest[k]);
                }
            }
            assert forall|j: int, k: int| 0 <= j < k < out.len() implies (#[trigger] out[j]).1 < (
            #[trigger] out[k]).0 by {
                assert(out[j] == rest[j]);
                if k < out.len() - 1 {
                    assert(out[k] == rest[k]);
                }
            }
        } else {
            let out = rest.push((n, n + 1));
            assert(spans(s) == out);
            if n >= 1 {
                assert(p.last() == s[n - 1]);
            }
            assert forall|k: int| 0 <= k < out.len() implies 0 <= (#[trigger] out[k]).0 < out[k].1
                <= s.len() by {
                if k < out.len() - 1 {
                    assert(out[k] == rest[k]);
                }
            }
            assert forall|j: int, k: int| 0 <= j < k < out.len() implies (#[trigger] out[j]).1 < (
            #[trigger] out[k]).0 by {
                assert(out[j] == rest[j]);
                if k < out.len() - 1 {
                    assert(out[k] == rest[k]);
                }
            }
        }
    }
}

/// Whether position `i` lies in one of the words.
pub open spec fn in_some_span(sp: Seq<(int, int)>, i: int) -> bool {
    exists|k: int| 0 <= k < sp.len() && (#[trigger] sp[k]).0 <= i < sp[k].1
}

/// The words hold every byte that is no separator, and no other byte.
pub proof fn lemma_spans_cover(s: Seq<u8>, i: int)
    requires
        0 <= i < s.len(),
    ensures
        !is_space(s[i]) <==> in_some_span(spans(s), i),
    decreases s.len(),
{
    let p = s.drop_last();
    let n = s.len() - 1;
    let rest = spans(p);
    let out = spans(s);
    lemma_spans_shape(p);
    lemma_spans_shape(s);
    if n >= 1 {
        assert(p.last() == s[n - 1]);
    }
    if i < n {
        lemma_spans_cover(p, i);
        assert(p[i] == s[i]);
        if in_some_span(rest, i) {
            let k = choose|k: int| 0 <= k < rest.len() && (#[trigger] rest[k]).0 <= i < rest[k].1;
            if is_space(s[n]) {
                assert(out[k].0 <= i < out[k].1);
            } else if n >= 1 && !is_space(s[n - 1]) {
                if k < rest.len() - 1 {
                    assert(out[k] == rest[k]);
                }
                assert(out[k].0 <= i < out[k].1);
            } else {
                assert(out[k] == rest[k]);
            }
            assert(in_some_span(out, i));
        }
        if in_some_span(out, i) {
            let k = choose|k: int| 0 <= k < out.len() && (#[trigger] out[k]).0 <= i < out[k].1;
            if is_space(s[n]) {
                assert(rest[k].0 <= i < rest[k].1);
            } else if n >= 1 && !is_space(s[n - 1]) {
                if k < rest.len() - 1 {
                    assert(out[k] == rest[k]);
                }
                assert(rest[k].0 <= i < rest[k].1);
            } else {
                if k < rest.len() {
                    assert(out[k] == rest[k]);
                }
                assert(rest[k].0 <= i < rest[k].1);
            }
            assert(in_some_span(rest, i));
        }
    } else {
        if is_space(s[n]) {
            assert forall|k: int| 0 <= k < out.len() implies !((#[trigger] out[k]).0 <= i
                < out[k].1) by {
                assert(rest[k].1 <= p.len());
            }
        } else {
            let k = out.len() - 1;
            assert(out[k].0 <= i < out[k].1);
        }
    }
}

/// The three places in a line where the coordinates of a vertex are written.
pub type CoordSpans = ((usize, usize), (usize, usize), (usize, usize));

/// What has been read of a mesh file so far: the number of vertices, and the
/// triangles as places in the list of vertices.
#[derive(Debug)]
pub struct ObjReader {
    pub nverts: usize,
    pub triangles: Vec<(usize, usize, usize)>,
}

impl ObjReader {
    /// Every corner of every triangle is one of the vertices read.
    pub open spec fn wf(&self) -> bool {
        forall|k: int|
            0 <= k < self.triangles@.len() ==> {
                &&& (#[trigger] self.triangles@[k]).0 < self.nverts
                &&& self.triangles@[k].1 < self.nverts
                &&& self.triangles@[k].2 < self.nverts
            }
    }

    /// The triangles that `line` adds when `nverts` vertices were read before
    /// it: the fan of the face it gives, or none.
    pub open spec fn added(line: Seq<u8>, nverts: int) -> Seq<(usize, usize, usize)> {
        if !is_vertex_line(line) && is_face_line(line) {
            fan_spec(face_indices(line, spans(line), nverts, spans(line).len()))
        } else {
            Seq::empty()
        }
    }

    /// A reader that has read nothing.
    pub fn new() -> (r: ObjReader)
        ensures
            r.nverts == 0,
            r.triangles@.len() == 0,
            r.wf(),
    {
        ObjReader { nverts: 0, triangles: Vec::new() }
    }

    /// Reads one line. A vertex line counts one vertex more and gives back
    /// where its coordinates are written; a face line adds its triangles;
    /// any other line changes nothing.
    pub fn feed(&mut self, line: &[u8]) -> (coords: Option<CoordSpans>)
        requires
            old(self).wf(),
            old(self).nverts < usize::MAX,
        ensures
            final(self).wf(),
            final(self).nverts == old(self).nverts + (if is_vertex_line(line@) {
                1int
            } else {
                0int
            }),
            final(self).triangles@ == old(self).triangles@ + Self::added(
                line@,
                old(self).nverts as int,
            ),
            coords.is_some() == is_vertex_line(line@),
            coords matches Some(c) ==> {
                &&& (c.0.0 as int, c.0.1 as int) == spans(line@)[1]
                &&& (c.1.0 as int, c.1.1 as int) == spans(line@)[2]
                &&& (c.2.0 as int, c.2.1 as int) == spans(line@)[3]
                &&& c.0.0 < c.0.1 <= line@.len()
                &&& c.1.0 < c.1.1 <= line@.len()
                &&& c.2.0 < c.2.1 <= line@.len()
            },
    {
        match parse_obj_line(line, self.nverts) {
            ObjLine::Vertex { x, y, z } => {
                self.nverts = self.nverts + 1;
                proof {
                    assert(self.triangles@ =~= old(self).triangles@ + Self::added(
                        line@,
                        old(self).nverts as int,
                    ));
                }
                Some((x, y, z))
            },
            ObjLine::Face { indices } => {
                let mut tris: Vec<(usize, usize, usize)> = fan_triangles(&indices);
                proof {
                    lemma_face_indices_in_range(
                        line@,
                        spans(line@),
                        self.nverts as int,
                        spans(line@).len(),
                    );
                }
                self.triangles.append(&mut tris);
                None
            },
            ObjLine::Other => {
                proof {
                    assert(self.triangles@ =~= old(self).triangles@ + Self::added(
                        line@,
                        old(self).nverts as int,
                    ));
                }
                None
            },
        }
    }
}

} // verus!
