//! The text format of point cloud files: which lines hold a point, and where
//! the numbers of its position and color stand in the text.
//!
//! A file is read line by line. A line whose first space-separated field is
//! exactly `v` and that has at least three more fields holds a point: those
//! three fields are its position; if three further fields follow, they are its
//! color. Every other line is skipped. Turning the fields into numbers is left
//! to the caller.

use vstd::prelude::*;

verus! {

/// The line feed byte, which ends a line.
pub const LINE_FEED: u8 = 10u8;

/// The carriage return byte, dropped where it stands just before a line feed.
pub const CARRIAGE_RETURN: u8 = 13u8;

/// The space byte, which separates fields.
pub const SPACE: u8 = 32u8;

/// The byte `v`, the marker of a point line.
pub const VERTEX_MARKER: u8 = 118u8;

/// The index of the first `b` in `s` at or after `from` and before `to`, or
/// `to` if there is none.
pub open spec fn find_byte(s: Seq<u8>, from: int, to: int, b: u8) -> int
    decreases to - from,
{
    if from >= to {
        to
    } else if s[from] == b {
        from
    } else {
        find_byte(s, from + 1, to, b)
    }
}

/// `find_byte` lands inside the searched range, on a `b` unless it reached
/// the end, and passes over no `b` on its way.
pub proof fn lemma_find_byte(s: Seq<u8>, from: int, to: int, b: u8)
    requires
        from <= to,
    ensures
        from <= find_byte(s, from, to, b) <= to,
        find_byte(s, from, to, b) < to ==> s[find_byte(s, from, to, b)] == b,
        forall|k: int| from <= k < find_byte(s, from, to, b) ==> s[k] != b,
    decreases to - from,
{
    if from < to && s[from] != b {
        lemma_find_byte(s, from + 1, to, b);
    }
}

/// The fields of the line `s[start..end]`, split at every space, as spans
/// `(first, past_last)` of indices into `s`. There is always at least one
/// field, possibly empty.
pub open spec fn split_fields(s: Seq<u8>, start: int, end: int) -> Seq<(int, int)>
    decreases end - start,
{
    let e = find_byte(s, start, end, SPACE);
    if start <= e < end {
        seq![(start, e)] + split_fields(s, e + 1, end)
    } else {
        seq![(start, e)]
    }
}

/// Where the content of a line that starts at `p` and whose line feed (or the
/// end of the text) is at `nl` ends: a carriage return just before a line
/// feed is not part of it.
pub open spec fn line_end(s: Seq<u8>, p: int, nl: int) -> int {
    if nl < s.len() && nl > p && s[nl - 1] == CARRIAGE_RETURN {
        nl - 1
    } else {
        nl
    }
}

/// The field `span` of `s` is exactly `v`.
pub open spec fn is_vertex_marker(s: Seq<u8>, span: (int, int)) -> bool {
    span.1 == span.0 + 1 && s[span.0] == VERTEX_MARKER
}

/// The number fields of the line `s[start..end]` if it holds a point: the
/// three position fields, followed by the three color fields where the line
/// has them.
pub open spec fn line_vertex(s: Seq<u8>, start: int, end: int) -> Option<Seq<(int, int)>> {
    let fields = split_fields(s, start, end);
    if fields.len() >= 4 && is_vertex_marker(s, fields[0]) {
        if fields.len() >= 7 {
            Some(fields.subrange(1, 7))
        } else {
            Some(fields.subrange(1, 4))
        }
    } else {
        None
    }
}

/// The number fields of every point line of `s` from index `p` on, in order.
pub open spec fn vertices_from(s: Seq<u8>, p: int) -> Seq<Seq<(int, int)>>
    decreases s.len() - p,
{
    if p < 0 || p >= s.len() {
        seq![]
    } else {
        let nl = find_byte(s, p, s.len() as int, LINE_FEED);
        let rest = if p <= nl < s.len() {
            vertices_from(s, nl + 1)
        } else {
            seq![]
        };
        match line_vertex(s, p, line_end(s, p, nl)) {
            Some(v) => seq![v] + rest,
            None => rest,
        }
    }
}

/// The number fields of every point line of the text `s`, in order.
pub open spec fn cloud_vertices(s: Seq<u8>) -> Seq<Seq<(int, int)>> {
    vertices_from(s, 0)
}

/// The field `span` lies inside `s` and holds no space and no line feed.
pub open spec fn is_clean_field(s: Seq<u8>, span: (int, int)) -> bool {
    &&& 0 <= span.0 <= span.1 <= s.len()
    &&& forall|t: int| span.0 <= t < span.1 ==> s[t] != 32u8 && s[t] != 10u8
}

proof fn lemma_split_fields_in_line(s: Seq<u8>, start: int, end: int)
    requires
        0 <= start <= end <= s.len(),
    ensures
        forall|k: int|
            0 <= k < split_fields(s, start, end).len() ==> {
                let sp = #[trigger] split_fields(s, start, end)[k];
                &&& start <= sp.0 <= sp.1 <= end
                &&& forall|t: int| sp.0 <= t < sp.1 ==> s[t] != 32u8
            },
    decreases end - start,
{
    lemma_split_fields_unfold(s, start, end);
    lemma_find_byte(s, start, end, SPACE);
    let e = find_byte(s, start, end, SPACE);
    let f = split_fields(s, start, end);
    if e < end {
        lemma_split_fields_in_line(s, e + 1, end);
        assert forall|k: int| 1 <= k < f.len() implies f[k] == split_fields(s, e + 1, end)[k - 1] by {
            assert(f[k] == f.drop_first()[k - 1]);
        }
    }
}

proof fn lemma_vertices_from_clean(s: Seq<u8>, p: int)
    ensures
        forall|i: int|
            0 <= i < vertices_from(s, p).len() ==> {
                let v = #[trigger] vertices_from(s, p)[i];
                &&& v.len() == 3 || v.len() == 6
                &&& forall|k: int| 0 <= k < v.len() ==> is_clean_field(s, #[trigger] v[k])
            },
    decreases s.len() - p,
{
    if 0 <= p < s.len() {
        let nl = find_byte(s, p, s.len() as int, LINE_FEED);
        lemma_find_byte(s, p, s.len() as int, LINE_FEED);
        let end = line_end(s, p, nl);
        let rest = if p <= nl < s.len() {
            vertices_from(s, nl + 1)
        } else {
            seq![]
        };
        if p <= nl < s.len() {
            lemma_vertices_from_clean(s, nl + 1);
        }
        match line_vertex(s, p, end) {
            Some(v) => {
                lemma_split_fields_in_line(s, p, end);
                let f = split_fields(s, p, end);
                assert forall|k: int| 0 <= k < v.len() implies is_clean_field(s, #[trigger] v[k]) by {
                    assert(v[k] == f[k + 1]);
                }
                let all = vertices_from(s, p);
                assert(all == seq![v] + rest);
                assert forall|i: int| 1 <= i < all.len() implies all[i] == rest[i - 1] by {}
            },
            None => {},
        }
    }
}

/// Every point that the parser reports has three or six number fields, and
/// each of them lies inside the text and holds no space and no line feed.
pub proof fn lemma_vertex_fields_clean(s: Seq<u8>, i: int)
    requires
        0 <= i < cloud_vertices(s).len(),
    ensures
        cloud_vertices(s)[i].len() == 3 || cloud_vertices(s)[i].len() == 6,
        forall|k: int|
            0 <= k < cloud_vertices(s)[i].len() ==> is_clean_field(s, #[trigger] cloud_vertices(s)[i][k]),
{
    lemma_vertices_from_clean(s, 0);
    let v = cloud_vertices(s)[i];
    assert(v.len() == 3 || v.len() == 6);
}

/// The spans `spans`, each moved `k` places on.
pub open spec fn shift_spans(spans: Seq<(int, int)>, k: int) -> Seq<(int, int)> {
    spans.map_values(|sp: (int, int)| (sp.0 + k, sp.1 + k))
}

/// The fields of every point of `vertices`, each moved `k` places on.
pub open spec fn shift_vertices(vertices: Seq<Seq<(int, int)>>, k: int) -> Seq<Seq<(int, int)>> {
    vertices.map_values(|v: Seq<(int, int)>| shift_spans(v, k))
}

proof fn lemma_find_byte_offset(s: Seq<u8>, t: Seq<u8>, k: int, from: int, to: int, c: u8)
    requires
        from <= to,
        forall|i: int| from <= i < to ==> s[i + k] == #[trigger] t[i],
    ensures
        find_byte(s, from + k, to + k, c) == find_byte(t, from, to, c) + k,
    decreases to - from,
{
    if from < to {
        assert(s[from + k] == t[from]);
        if t[from] != c {
            lemma_find_byte_offset(s, t, k, from + 1, to, c);
        }
    }
}

proof fn lemma_find_byte_extend(s: Seq<u8>, from: int, mid: int, to: int, c: u8)
    requires
        from <= mid <= to,
    ensures
        find_byte(s, from, to, c) == if find_byte(s, from, mid, c) < mid {
            find_byte(s, from, mid, c)
        } else {
            find_byte(s, mid, to, c)
        },
    decreases mid - from,
{
    if from < mid && s[from] != c {
        lemma_find_byte_extend(s, from + 1, mid, to, c);
    }
}

proof fn lemma_split_fields_offset(s: Seq<u8>, t: Seq<u8>, k: int, start: int, end: int)
    requires
        start <= end,
        forall|i: int| start <= i < end ==> s[i + k] == #[trigger] t[i],
    ensures
        split_fields(s, start + k, end + k) == shift_spans(split_fields(t, start, end), k),
    decreases end - start,
{
    lemma_find_byte_offset(s, t, k, start, end, SPACE);
    lemma_find_byte(t, start, end, SPACE);
    let e = find_byte(t, start, end, SPACE);
    if e < end {
        lemma_split_fields_offset(s, t, k, e + 1, end);
        let rest = split_fields(t, e + 1, end);
        assert(shift_spans(seq![(start, e)] + rest, k) =~= seq![(start + k, e + k)] + shift_spans(
            rest,
            k,
        ));
    } else {
        assert(shift_spans(seq![(start, e)], k) =~= seq![(start + k, e + k)]);
    }
}

proof fn lemma_line_vertex_offset(s: Seq<u8>, t: Seq<u8>, k: int, start: int, end: int)
    requires
        start <= end,
        forall|i: int| start <= i < end ==> s[i + k] == #[trigger] t[i],
    ensures
        line_vertex(s, start + k, end + k) == match line_vertex(t, start, end) {
            Some(v) => Some(shift_spans(v, k)),
            None => None,
        },
{
    lemma_split_fields_offset(s, t, k, start, end);
    lemma_split_fields_unfold(t, start, end);
    let ft = split_fields(t, start, end);
    let fs = split_fields(s, start + k, end + k);
    if ft.len() >= 4 {
        assert(ft.len() > 1);
        assert(start < end);
        assert(s[start + k] == t[start]);
        assert(fs[0] == (ft[0].0 + k, ft[0].1 + k));
        assert(is_vertex_marker(s, fs[0]) == is_vertex_marker(t, ft[0]));
        if ft.len() >= 7 {
            assert(fs.subrange(1, 7) =~= shift_spans(ft.subrange(1, 7), k));
        } else {
            assert(fs.subrange(1, 4) =~= shift_spans(ft.subrange(1, 4), k));
        }
    }
}

proof fn lemma_vertices_from_suffix(x: Seq<u8>, b: Seq<u8>, q: int)
    requires
        0 <= q,
    ensures
        vertices_from(x + b, x.len() as int + q) == shift_vertices(vertices_from(b, q), x.len() as int),
    decreases b.len() - q,
{
    let s = x + b;
    let k = x.len() as int;
    if q >= b.len() {
        assert(shift_vertices(vertices_from(b, q), k) =~= Seq::<Seq<(int, int)>>::empty());
    } else {
        assert forall|i: int| 0 <= i < b.len() implies s[i + k] == #[trigger] b[i] by {}
        let p = k + q;
        lemma_find_byte_offset(s, b, k, q, b.len() as int, LINE_FEED);
        lemma_find_byte(b, q, b.len() as int, LINE_FEED);
        let nlb = find_byte(b, q, b.len() as int, LINE_FEED);
        let nls = find_byte(s, p, s.len() as int, LINE_FEED);
        assert(nls == nlb + k);
        if nlb > q {
            assert(s[nls - 1] == b[nlb - 1]);
        }
        let eb = line_end(b, q, nlb);
        assert(line_end(s, p, nls) == eb + k);
        lemma_line_vertex_offset(s, b, k, q, eb);
        let rest_b = if q <= nlb < b.len() {
            vertices_from(b, nlb + 1)
        } else {
            seq![]
        };
        let rest_s = if p <= nls < s.len() {
            vertices_from(s, nls + 1)
        } else {
            seq![]
        };
        if q <= nlb < b.len() {
            lemma_vertices_from_suffix(x, b, nlb + 1);
            assert(rest_s == shift_vertices(rest_b, k));
        } else {
            assert(rest_s =~= shift_vertices(rest_b, k));
        }
        match line_vertex(b, q, eb) {
            Some(v) => {
                assert(shift_vertices(seq![v] + rest_b, k) =~= seq![shift_spans(v, k)]
                    + shift_vertices(rest_b, k));
            },
            None => {},
        }
    }
}

proof fn lemma_vertices_from_prefix(a: Seq<u8>, b: Seq<u8>, p: int)
    requires
        0 <= p <= a.len(),
        a.len() == 0 || a.last() != CARRIAGE_RETURN,
    ensures
        vertices_from(a + seq![LINE_FEED] + b, p) == vertices_from(a, p) + shift_vertices(
            vertices_from(b, 0),
            a.len() + 1int,
        ),
    decreases a.len() - p,
{
    let x = a + seq![LINE_FEED];
    let s = x + b;
    let tail = shift_vertices(vertices_from(b, 0), a.len() + 1int);
    lemma_vertices_from_suffix(x, b, 0);
    assert(vertices_from(s, a.len() + 1int) == tail);
    assert(s[a.len() as int] == LINE_FEED);
    if p == a.len() {
        assert(find_byte(s, p, s.len() as int, LINE_FEED) == p);
        assert(line_end(s, p, p) == p);
        assert(find_byte(s, p, p, SPACE) == p);
        assert(split_fields(s, p, p) == seq![(p, p)]);
        assert(line_vertex(s, p, p) is None);
        assert(vertices_from(a, p) =~= Seq::<Seq<(int, int)>>::empty());
        assert(vertices_from(s, p) == tail);
        assert(vertices_from(a, p) + tail =~= tail);
    } else {
        assert forall|i: int| p <= i < a.len() implies s[i + 0] == #[trigger] a[i] by {}
        lemma_find_byte_offset(s, a, 0, p, a.len() as int, LINE_FEED);
        lemma_find_byte(a, p, a.len() as int, LINE_FEED);
        lemma_find_byte_extend(s, p, a.len() as int, s.len() as int, LINE_FEED);
        let nl = find_byte(a, p, a.len() as int, LINE_FEED);
        assert(find_byte(s, a.len() as int, s.len() as int, LINE_FEED) == a.len());
        assert(find_byte(s, p, s.len() as int, LINE_FEED) == nl);
        if nl > p {
            assert(s[nl - 1] == a[nl - 1]);
        }
        let e = line_end(a, p, nl);
        assert(line_end(s, p, nl) == e);
        assert forall|i: int| p <= i < e implies s[i + 0] == #[trigger] a[i] by {}
        lemma_line_vertex_offset(s, a, 0, p, e);
        match line_vertex(a, p, e) {
            Some(v) => {
                assert(shift_spans(v, 0) =~= v);
            },
            None => {},
        }
        assert(line_vertex(s, p, e) == line_vertex(a, p, e));
        if nl < a.len() {
            lemma_vertices_from_prefix(a, b, nl + 1);
            match line_vertex(a, p, e) {
                Some(v) => {
                    assert(seq![v] + (vertices_from(a, nl + 1) + tail) =~= (seq![v]
                        + vertices_from(a, nl + 1)) + tail);
                },
                None => {},
            }
        } else {
            match line_vertex(a, p, e) {
                Some(v) => {
                    assert(vertices_from(a, p) == seq![v]);
                },
                None => {
                    assert(vertices_from(a, p) =~= Seq::<Seq<(int, int)>>::empty());
                },
            }
            assert(vertices_from(s, p) =~= vertices_from(a, p) + tail);
        }
    }
}

/// No line, with a point or without one (an empty line included), ends the
/// reading: joining two texts with a line feed between them gives the points
/// of the first text followed by the points of the second, whose fields stand
/// `a.len() + 1int` places further on in the joined text. This holds unless the
/// first text ends in a carriage return, which the added line feed would turn
/// into part of a line break.
pub proof fn lemma_points_of_joined_texts(a: Seq<u8>, b: Seq<u8>)
    requires
        a.len() == 0 || a.last() != 13u8,
    ensures
        cloud_vertices(a + seq![10u8] + b) == cloud_vertices(a) + shift_vertices(
            cloud_vertices(b),
            a.len() + 1int,
        ),
{
    lemma_vertices_from_prefix(a, b, 0);
}

/// `f` holds neither a space nor a line feed, so it can stand as one field.
pub open spec fn is_plain_field(f: Seq<u8>) -> bool {
    forall|i: int| 0 <= i < f.len() ==> f[i] != 32u8 && f[i] != 10u8
}

proof fn lemma_find_byte_at(s: Seq<u8>, from: int, to: int, c: u8, m: int)
    requires
        from <= m <= to,
        forall|i: int| from <= i < m ==> s[i] != c,
        m == to || s[m] == c,
    ensures
        find_byte(s, from, to, c) == m,
    decreases m - from,
{
    if from < m {
        lemma_find_byte_at(s, from + 1, to, c, m);
    }
}

/// A line `v x y z` of three plain fields is exactly one point whose fields
/// are `x`, `y` and `z`, where the line ends at the end of the text, with a
/// line feed, or with a carriage return and a line feed; neither line break
/// byte ever becomes part of a field. (A lone line feed after a `z` that ends
/// in a carriage return would take that carriage return as the line break.)
pub proof fn lemma_point_line(x: Seq<u8>, y: Seq<u8>, z: Seq<u8>, ending: Seq<u8>)
    requires
        is_plain_field(x),
        is_plain_field(y),
        is_plain_field(z),
        ending == Seq::<u8>::empty() || ending == seq![10u8] || ending == seq![
            13u8,
            10u8,
        ],
        ending == seq![10u8] ==> z.len() == 0 || z.last() != 13u8,
    ensures
        ({
            let t = seq![118u8, 32u8] + x + seq![32u8] + y + seq![32u8] + z + ending;
            let (xl, yl, zl) = (x.len() as int, y.len() as int, z.len() as int);
            cloud_vertices(t) == seq![
                seq![(2, 2 + xl), (3 + xl, 3 + xl + yl), (4 + xl + yl, 4 + xl + yl + zl)],
            ]
        }),
{
    let t = seq![VERTEX_MARKER, SPACE] + x + seq![SPACE] + y + seq![SPACE] + z + ending;
    let xl = x.len() as int;
    let yl = y.len() as int;
    let zl = z.len() as int;
    let x0 = 2int;
    let y0 = 3 + xl;
    let z0 = 4 + xl + yl;
    let l = z0 + zl;
    assert(t.len() == l + ending.len());
    assert(t[0] == VERTEX_MARKER && t[1] == SPACE);
    assert forall|i: int| x0 <= i < x0 + xl implies t[i] == x[i - x0] by {}
    assert forall|i: int| y0 <= i < y0 + yl implies t[i] == y[i - y0] by {}
    assert forall|i: int| z0 <= i < l implies t[i] == z[i - z0] by {}
    assert(t[x0 + xl] == SPACE);
    assert(t[y0 + yl] == SPACE);
    assert forall|i: int| 0 <= i < l implies #[trigger] t[i] != LINE_FEED by {
        if x0 <= i < x0 + xl {
            assert(t[i] == x[i - x0]);
        } else if y0 <= i < y0 + yl {
            assert(t[i] == y[i - y0]);
        } else if z0 <= i < l {
            assert(t[i] == z[i - z0]);
        }
    }
    // The line break.
    let nl: int = if ending.len() == 2 {
        l + 1
    } else {
        l
    };
    if ending.len() == 2 {
        assert(t[l] == CARRIAGE_RETURN && t[l + 1] == LINE_FEED);
    } else if ending.len() == 1 {
        assert(t[l] == LINE_FEED);
        if z.len() > 0 {
            assert(t[l - 1] == z.last());
        } else {
            assert(t[l - 1] == SPACE);
        }
    }
    lemma_find_byte_at(t, 0, t.len() as int, LINE_FEED, nl);
    assert(line_end(t, 0, nl) == l);
    // The fields.
    lemma_find_byte_at(t, 0, l, SPACE, 1);
    assert forall|i: int| x0 <= i < x0 + xl implies t[i] != SPACE by {
        assert(t[i] == x[i - x0]);
    }
    lemma_find_byte_at(t, x0, l, SPACE, x0 + xl);
    assert forall|i: int| y0 <= i < y0 + yl implies t[i] != SPACE by {
        assert(t[i] == y[i - y0]);
    }
    lemma_find_byte_at(t, y0, l, SPACE, y0 + yl);
    assert forall|i: int| z0 <= i < l implies t[i] != SPACE by {
        assert(t[i] == z[i - z0]);
    }
    lemma_find_byte_at(t, z0, l, SPACE, l);
    assert(split_fields(t, z0, l) == seq![(z0, l)]);
    assert(split_fields(t, y0, l) =~= seq![(y0, y0 + yl), (z0, l)]);
    assert(split_fields(t, x0, l) =~= seq![(x0, x0 + xl), (y0, y0 + yl), (z0, l)]);
    assert(split_fields(t, 0, l) =~= seq![(0int, 1int), (x0, x0 + xl), (y0, y0 + yl), (z0, l)]);
    assert(line_vertex(t, 0, l) == Some(seq![(x0, x0 + xl), (y0, y0 + yl), (z0, l)])) by {
        assert(split_fields(t, 0, l).subrange(1, 4) =~= seq![(x0, x0 + xl), (y0, y0 + yl), (z0, l)]);
    }
    assert(vertices_from(t, nl + 1) =~= Seq::<Seq<(int, int)>>::empty());
    assert(cloud_vertices(t) =~= seq![seq![(x0, x0 + xl), (y0, y0 + yl), (z0, l)]]);
}

/// A line whose first field is not exactly `v` holds no point, whatever
/// follows that field.
pub proof fn lemma_unmarked_line(line: Seq<u8>)
    requires
        forall|i: int| 0 <= i < line.len() ==> line[i] != 10u8,
        !(line.len() >= 1 && line[0] == 118u8 && (line.len() == 1 || line[1] == 32u8)),
    ensures
        cloud_vertices(line) == Seq::<Seq<(int, int)>>::empty(),
{
    if line.len() > 0 {
        lemma_find_byte_at(line, 0, line.len() as int, LINE_FEED, line.len() as int);
        let n = line.len() as int;
        assert(line_end(line, 0, n) == n);
        lemma_split_fields_unfold(line, 0, n);
        let f = split_fields(line, 0, n);
        let e = find_byte(line, 0, n, SPACE);
        if e == 1 {
            lemma_find_byte(line, 0, n, SPACE);
            assert(line[0] != SPACE);
            assert(n == 1 || line[1] == SPACE);
        }
        assert(!is_vertex_marker(line, f[0]));
        assert(line_vertex(line, 0, n) is None);
        assert(cloud_vertices(line) =~= Seq::<Seq<(int, int)>>::empty());
    }
}

/// A field of the text: the bytes from `start` up to, not including, `end`.
#[derive(Clone, Copy, Debug, PartialEq, Eq)]
pub struct Span {
    pub start: usize,
    pub end: usize,
}

impl View for Span {
    type V = (int, int);

    open spec fn view(&self) -> (int, int) {
        (self.start as int, self.end as int)
    }
}

/// The three color fields of a point line.
#[derive(Clone, Copy, Debug, PartialEq, Eq)]
pub struct ColorFields {
    pub r: Span,
    pub g: Span,
    pub b: Span,
}

/// The number fields of a point line: its position, and its color if the line
/// has one.
#[derive(Clone, Copy, Debug, PartialEq, Eq)]
pub struct VertexFields {
    pub x: Span,
    pub y: Span,
    pub z: Span,
    pub color: Option<ColorFields>,
}

impl VertexFields {
    /// The fields in the order they stand on the line.
    pub open spec fn spans(self) -> Seq<(int, int)> {
        seq![self.x@, self.y@, self.z@] + match self.color {
            Some(c) => seq![c.r@, c.g@, c.b@],
            None => Seq::<(int, int)>::empty(),
        }
    }
}

/// The index of the first `b` in `text[from..to]`, or `to` if there is none.
fn find_byte_in(text: &[u8], from: usize, to: usize, b: u8) -> (r: usize)
    requires
        from <= to <= text@.len(),
    ensures
        r == find_byte(text@, from as int, to as int, b),
{
    let mut i = from;
    while i < to
        invariant
            from <= i <= to <= text@.len(),
            find_byte(text@, from as int, to as int, b) == find_byte(text@, i as int, to as int, b),
        decreases to - i,
    {
        if text[i] == b {
            return i;
        }
        i = i + 1;
    }
    i
}

proof fn lemma_split_fields_unfold(s: Seq<u8>, start: int, end: int)
    requires
        start <= end,
    ensures
        ({
            let e = find_byte(s, start, end, SPACE);
            &&& start <= e <= end
            &&& split_fields(s, start, end).len() >= 1
            &&& split_fields(s, start, end)[0] == (start, e)
            &&& e < end ==> split_fields(s, start, end).drop_first() == split_fields(s, e + 1, end)
            &&& e == end ==> split_fields(s, start, end).len() == 1
        }),
{
    lemma_find_byte(s, start, end, SPACE);
    let e = find_byte(s, start, end, SPACE);
    if e < end {
        assert(split_fields(s, start, end).drop_first() =~= split_fields(s, e + 1, end));
    }
}

/// The number fields of the line `text[start..end]` if it holds a point.
fn line_vertex_fields(text: &[u8], start: usize, end: usize) -> (r: Option<VertexFields>)
    requires
        start <= end <= text@.len(),
    ensures
        match line_vertex(text@, start as int, end as int) {
            Some(v) => r matches Some(f) && f.spans() == v,
            None => r is None,
        },
{
    let ghost s = text@;
    let ghost all = split_fields(s, start as int, end as int);
    let mut fields: Vec<Span> = Vec::new();
    let mut cur = start;
    let mut done = false;
    while !done && fields.len() < 7
        invariant
            start <= cur <= end <= text@.len(),
            s == text@,
            all == split_fields(s, start as int, end as int),
            fields@.len() <= 7,
            !done ==> all == fields@.map_values(|f: Span| f@) + split_fields(s, cur as int, end as int),
            done ==> all == fields@.map_values(|f: Span| f@),
        decreases (7 - fields@.len()) + (if done { 0int } else { 1int }),
    {
        let e = find_byte_in(text, cur, end, SPACE);
        proof {
            lemma_split_fields_unfold(s, cur as int, end as int);
        }
        let ghost old_view = fields@.map_values(|f: Span| f@);
        fields.push(Span { start: cur, end: e });
        assert(fields@.map_values(|f: Span| f@) =~= old_view.push((cur as int, e as int)));
        if e < end {
            proof {
                let rest = split_fields(s, cur as int, end as int);
                assert(rest =~= seq![(cur as int, e as int)] + rest.drop_first());
                assert(all =~= old_view.push((cur as int, e as int)) + split_fields(s, e + 1, end as int));
            }
            cur = e + 1;
        } else {
            proof {
                let rest = split_fields(s, cur as int, end as int);
                assert(rest =~= seq![(cur as int, e as int)]);
                assert(all =~= old_view.push((cur as int, e as int)));
            }
            done = true;
        }
    }
    let ghost fv = fields@.map_values(|f: Span| f@);
    proof {
        if !done {
            lemma_split_fields_unfold(s, cur as int, end as int);
            assert(all.len() >= 8);
        }
        assert(forall|k: int| 0 <= k < fields@.len() ==> all[k] == #[trigger] fields@[k]@);
        assert(fields@.len() >= 4 <==> all.len() >= 4);
        assert(fields@.len() >= 7 <==> all.len() >= 7);
    }
    if fields.len() >= 4 && fields[0].end == fields[0].start + 1 && text[fields[0].start]
        == VERTEX_MARKER {
        assert(is_vertex_marker(s, all[0]));
        let color = if fields.len() >= 7 {
            Some(ColorFields { r: fields[4], g: fields[5], b: fields[6] })
        } else {
            None
        };
        let v = VertexFields { x: fields[1], y: fields[2], z: fields[3], color };
        proof {
            if fields@.len() >= 7 {
                assert(v.spans() =~= all.subrange(1, 7));
            } else {
                assert(v.spans() =~= all.subrange(1, 4));
            }
        }
        Some(v)
    } else {
        proof {
            if all.len() >= 4 {
                assert(all[0] == fields@[0]@);
            }
        }
        None
    }
}

/// Finds every point line of the text of a point cloud file, in order, and
/// returns where the fields of its position and color stand in the text.
pub fn parse_vertex_lines(text: &[u8]) -> (r: Vec<VertexFields>)
    ensures
        r@.map_values(|v: VertexFields| v.spans()) == cloud_vertices(text@),
{
    let ghost s = text@;
    let n = text.len();
    let mut out: Vec<VertexFields> = Vec::new();
    let mut p: usize = 0;
    while p < n
        invariant
            s == text@,
            n == s.len(),
            p <= n,
            cloud_vertices(s) == out@.map_values(|v: VertexFields| v.spans()) + vertices_from(
                s,
                p as int,
            ),
        decreases n - p,
    {
        let nl = find_byte_in(text, p, n, LINE_FEED);
        proof {
            lemma_find_byte(s, p as int, n as int, LINE_FEED);
        }
        let end = if nl < n && nl > p && text[nl - 1] == CARRIAGE_RETURN {
            nl - 1
        } else {
            nl
        };
        let ghost before = out@.map_values(|v: VertexFields| v.spans());
        let found = line_vertex_fields(text, p, end);
        let next = if nl < n {
            nl + 1
        } else {
            n
        };
        proof {
            assert(vertices_from(s, n as int) =~= Seq::<Seq<(int, int)>>::empty());
            assert(vertices_from(s, nl + 1) == vertices_from(s, next as int));
        }
        match found {
            Some(f) => {
                out.push(f);
                assert(out@.map_values(|v: VertexFields| v.spans()) =~= before.push(f.spans()));
                assert(cloud_vertices(s) =~= out@.map_values(|v: VertexFields| v.spans())
                    + vertices_from(s, next as int));
            },
            None => {},
        }
        p = next;
    }
    assert(vertices_from(s, p as int) =~= Seq::<Seq<(int, int)>>::empty());
    assert(cloud_vertices(s) =~= out@.map_values(|v: VertexFields| v.spans()));
    out
}

} // verus!
