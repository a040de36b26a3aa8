//! Benchmark matrices: the points a matrix expands to, how a point's
//! parameters fill a command, and the names a benchmark run is filed under.
use vstd::prelude::*;

use crate::text::{
    chars_of, is_ascii_alnum, join, join_chars, push_str, replace, replace_all,
    string_of, views,
};

verus! {

/// A point's parameters as text: name and value, in name order.
pub open spec fn params_view(p: Seq<(String, String)>) -> Seq<(Seq<char>, Seq<char>)> {
    p.map_values(|e: (String, String)| (e.0@, e.1@))
}

pub open spec fn points_view(v: Seq<Vec<(String, String)>>) -> Seq<Seq<(Seq<char>, Seq<char>)>> {
    v.map_values(|p: Vec<(String, String)>| params_view(p@))
}

pub open spec fn matrix_view(m: Seq<(String, Vec<String>)>) -> Seq<(Seq<char>, Seq<Seq<char>>)> {
    m.map_values(|e: (String, Vec<String>)| (e.0@, e.1@.map_values(|s: String| s@)))
}

/// Each point followed by each value of one more parameter: earlier points
/// first, and for each point the values in their listed order.
pub open spec fn extend_points(
    points: Seq<Seq<(Seq<char>, Seq<char>)>>,
    name: Seq<char>,
    values: Seq<Seq<char>>,
) -> Seq<Seq<(Seq<char>, Seq<char>)>>
    decreases points.len(),
{
    if points.len() == 0 {
        Seq::empty()
    } else {
        extend_points(points.drop_last(), name, values) + values.map_values(
            |v: Seq<char>| points.last().push((name, v)),
        )
    }
}

/// The cartesian product of a matrix's parameters, in parameter order, with
/// later parameters varying fastest. An empty matrix has one empty point.
pub open spec fn cartesian(matrix: Seq<(Seq<char>, Seq<Seq<char>>)>) -> Seq<Seq<(Seq<char>, Seq<char>)>>
    decreases matrix.len(),
{
    if matrix.len() == 0 {
        seq![Seq::empty()]
    } else {
        extend_points(cartesian(matrix.drop_last()), matrix.last().0, matrix.last().1)
    }
}

/// How many points a matrix expands to: the product of its parameters'
/// value counts.
pub open spec fn point_count(matrix: Seq<(Seq<char>, Seq<Seq<char>>)>) -> nat
    decreases matrix.len(),
{
    if matrix.len() == 0 {
        1
    } else {
        point_count(matrix.drop_last()) * matrix.last().1.len()
    }
}

proof fn lemma_extend_shape(
    points: Seq<Seq<(Seq<char>, Seq<char>)>>,
    name: Seq<char>,
    values: Seq<Seq<char>>,
    names: Seq<Seq<char>>,
)
    requires
        forall|p: int| 0 <= p < points.len() ==> (#[trigger] points[p]).len() == names.len() && forall|k: int|
            0 <= k < names.len() ==> points[p][k].0 == names[k],
    ensures
        extend_points(points, name, values).len() == points.len() * values.len(),
        forall|p: int|
            0 <= p < extend_points(points, name, values).len() ==> (#[trigger] extend_points(points, name, values)[p]).len()
                == names.push(name).len() && forall|k: int|
                0 <= k < names.push(name).len() ==> extend_points(points, name, values)[p][k].0
                    == names.push(name)[k],
    decreases points.len(),
{
    if points.len() > 0 {
        lemma_extend_shape(points.drop_last(), name, values, names);
        let a = extend_points(points.drop_last(), name, values);
        let b = values.map_values(|v: Seq<char>| points.last().push((name, v)));
        assert(a.len() + b.len() == points.len() * values.len()) by (nonlinear_arith)
            requires
                a.len() == (points.len() - 1) * values.len(),
                b.len() == values.len(),
        ;
        let e = extend_points(points, name, values);
        assert forall|p: int| 0 <= p < e.len() implies (#[trigger] e[p]).len() == names.push(name).len()
            && forall|k: int| 0 <= k < names.push(name).len() ==> e[p][k].0 == names.push(name)[k] by {
            if p >= a.len() {
                assert(e[p] == b[p - a.len()]);
                assert(points.last() == points[points.len() - 1]);
                assert forall|k: int| 0 <= k < names.push(name).len() implies e[p][k].0 == names.push(name)[k] by {
                    if k < names.len() {
                        assert(e[p][k] == points[points.len() - 1][k]);
                    }
                }
            } else {
                assert(e[p] == a[p]);
            }
        }
    }
}

/// A matrix expands to as many points as the product of its value counts,
/// and every point names each parameter once, in the matrix's order.
pub proof fn law_cartesian_shape(matrix: Seq<(Seq<char>, Seq<Seq<char>>)>)
    ensures
        cartesian(matrix).len() == point_count(matrix),
        forall|p: int|
            0 <= p < cartesian(matrix).len() ==> (#[trigger] cartesian(matrix)[p]).len() == matrix.len()
                && forall|k: int| 0 <= k < matrix.len() ==> cartesian(matrix)[p][k].0 == matrix[k].0,
    decreases matrix.len(),
{
    let names = matrix.map_values(|e: (Seq<char>, Seq<Seq<char>>)| e.0);
    if matrix.len() > 0 {
        law_cartesian_shape(matrix.drop_last());
        let inner = matrix.drop_last().map_values(|e: (Seq<char>, Seq<Seq<char>>)| e.0);
        lemma_extend_shape(cartesian(matrix.drop_last()), matrix.last().0, matrix.last().1, inner);
        assert(inner.push(matrix.last().0) =~= names);
        let c = cartesian(matrix);
        assert forall|p: int| 0 <= p < c.len() implies (#[trigger] c[p]).len() == matrix.len() && forall|k: int|
            0 <= k < matrix.len() ==> c[p][k].0 == matrix[k].0 by {
            assert forall|k: int| 0 <= k < matrix.len() implies c[p][k].0 == matrix[k].0 by {
                assert(names[k] == matrix[k].0);
                assert(inner.push(matrix.last().0)[k] == names[k]);
            }
        }
    } else {
        assert(cartesian(matrix)[0].len() == 0);
    }
}

fn copy_params(p: &Vec<(String, String)>) -> (out: Vec<(String, String)>)
    ensures
        params_view(out@) == params_view(p@),
{
    let mut out: Vec<(String, String)> = Vec::new();
    let mut i: usize = 0;
    while i < p.len()
        invariant
            i <= p@.len(),
            out@.len() == i,
            forall|j: int| 0 <= j < i ==> #[trigger] out@[j].0@ == p@[j].0@ && out@[j].1@ == p@[j].1@,
        decreases p@.len() - i,
    {
        out.push((crate::text::copy_string(&p[i].0), crate::text::copy_string(&p[i].1)));
        i = i + 1;
    }
    assert(params_view(out@) =~= params_view(p@));
    out
}

fn extend_exec(points: &Vec<Vec<(String, String)>>, name: &String, values: &Vec<String>) -> (out: Vec<Vec<(String, String)>>)
    ensures
        points_view(out@) == extend_points(points_view(points@), name@, values@.map_values(|s: String| s@)),
{
    let ghost vs = values@.map_values(|s: String| s@);
    let mut out: Vec<Vec<(String, String)>> = Vec::new();
    let mut i: usize = 0;
    assert(points_view(out@) =~= extend_points(points_view(points@).take(0), name@, vs));
    while i < points.len()
        invariant
            i <= points@.len(),
            vs == values@.map_values(|s: String| s@),
            points_view(out@) == extend_points(points_view(points@).take(i as int), name@, vs),
        decreases points@.len() - i,
    {
        let ghost base = points_view(out@);
        let ghost pt = params_view(points@[i as int]@);
        let mut k: usize = 0;
        while k < values.len()
            invariant
                k <= values@.len(),
                i < points@.len(),
                pt == params_view(points@[i as int]@),
                vs == values@.map_values(|s: String| s@),
                points_view(out@) == base + vs.take(k as int).map_values(|v: Seq<char>| pt.push((name@, v))),
            decreases values@.len() - k,
        {
            let mut p = copy_params(&points[i]);
            let ghost before = points_view(out@);
            p.push((crate::text::copy_string(name), crate::text::copy_string(&values[k])));
            assert(params_view(p@) =~= pt.push((name@, values@[k as int]@)));
            out.push(p);
            assert(vs.take(k + 1).map_values(|v: Seq<char>| pt.push((name@, v))) =~= vs.take(
                k as int,
            ).map_values(|v: Seq<char>| pt.push((name@, v))).push(pt.push((name@, vs[k as int]))));
            assert(points_view(out@) =~= before.push(params_view(p@)));
            k = k + 1;
        }
        assert(vs.take(k as int) =~= vs);
        proof {
            let t = points_view(points@).take(i + 1);
            assert(t.drop_last() =~= points_view(points@).take(i as int));
            assert(t.last() == pt);
        }
        i = i + 1;
    }
    assert(points_view(points@).take(i as int) =~= points_view(points@));
    out
}

/// A matrix names each parameter once, in ascending name order, as a map
/// keyed by name keeps them.
pub open spec fn names_ascending(matrix: Seq<(Seq<char>, Seq<Seq<char>>)>) -> bool {
    forall|i: int, j: int| 0 <= i < j < matrix.len() ==> crate::digest::name_lt(#[trigger] matrix[i].0, #[trigger] matrix[j].0)
}

/// Cartesian product of all matrix parameters: parameters in name order,
/// values in listed order, later parameters varying fastest. An empty
/// matrix yields a single point with no parameters.
pub fn cartesian_points(matrix: &Vec<(String, Vec<String>)>) -> (out: Vec<Vec<(String, String)>>)
    requires
        names_ascending(matrix_view(matrix@)),
    ensures
        points_view(out@) == cartesian(matrix_view(matrix@)),
{
    let mut points: Vec<Vec<(String, String)>> = Vec::new();
    points.push(Vec::new());
    let mut i: usize = 0;
    assert(params_view(points@[0]@) =~= Seq::<(Seq<char>, Seq<char>)>::empty());
    assert(points_view(points@) =~= cartesian(matrix_view(matrix@).take(0)));
    while i < matrix.len()
        invariant
            i <= matrix@.len(),
            points_view(points@) == cartesian(matrix_view(matrix@).take(i as int)),
        decreases matrix@.len() - i,
    {
        assert(matrix_view(matrix@).take(i + 1).drop_last() =~= matrix_view(matrix@).take(i as int));
        points = extend_exec(&points, &matrix[i].0, &matrix[i].1);
        i = i + 1;
    }
    assert(matrix_view(matrix@).take(i as int) =~= matrix_view(matrix@));
    points
}

/// `{name}` for a parameter name.
pub open spec fn placeholder(name: Seq<char>) -> Seq<char> {
    seq!['{'] + name + seq!['}']
}

/// Each parameter's placeholder replaced by its value, one parameter after
/// the other in name order.
pub open spec fn expand(value: Seq<char>, params: Seq<(Seq<char>, Seq<char>)>) -> Seq<char>
    decreases params.len(),
{
    if params.len() == 0 {
        value
    } else {
        replace(expand(value, params.drop_last()), placeholder(params.last().0), params.last().1)
    }
}

pub fn expand_params(value: &str, params: &Vec<(String, String)>) -> (out: String)
    ensures
        out@ == expand(value@, params_view(params@)),
{
    let mut expanded = chars_of(value);
    let mut i: usize = 0;
    while i < params.len()
        invariant
            i <= params@.len(),
            expanded@ == expand(value@, params_view(params@).take(i as int)),
        decreases params@.len() - i,
    {
        assert(params_view(params@).take(i + 1).drop_last() =~= params_view(params@).take(i as int));
        let mut pattern: Vec<char> = Vec::new();
        pattern.push('{');
        push_str(&mut pattern, params[i].0.as_str());
        pattern.push('}');
        assert(pattern@ =~= placeholder(params@[i as int].0@));
        let with = chars_of(params[i].1.as_str());
        expanded = replace_all(expanded.as_slice(), pattern.as_slice(), with.as_slice());
        i = i + 1;
    }
    assert(params_view(params@).take(i as int) =~= params_view(params@));
    string_of(expanded.as_slice())
}

/// `name=value` for each parameter, joined by `, `; empty for a point with
/// no parameters.
pub open spec fn label(params: Seq<(Seq<char>, Seq<char>)>) -> Seq<char> {
    join(params.map_values(|e: (Seq<char>, Seq<char>)| e.0 + seq!['='] + e.1), seq![',', ' '])
}

pub fn params_label(params: &Vec<(String, String)>) -> (out: String)
    ensures
        out@ == label(params_view(params@)),
{
    let mut parts: Vec<Vec<char>> = Vec::new();
    let mut i: usize = 0;
    while i < params.len()
        invariant
            i <= params@.len(),
            parts@.len() == i,
            forall|j: int| 0 <= j < i ==> #[trigger] parts@[j]@ == params@[j].0@ + seq!['='] + params@[j].1@,
        decreases params@.len() - i,
    {
        let mut part = chars_of(params[i].0.as_str());
        part.push('=');
        push_str(&mut part, params[i].1.as_str());
        parts.push(part);
        i = i + 1;
    }
    assert(views(parts@) =~= params_view(params@).map_values(
        |e: (Seq<char>, Seq<char>)| e.0 + seq!['='] + e.1,
    ));
    let sep = vec![',', ' '];
    assert(sep@ =~= seq![',', ' ']);
    let joined = join_chars(&parts, sep.as_slice());
    string_of(joined.as_slice())
}

/// A character kept in a file name: ASCII letters and digits, `-` and `_`.
pub open spec fn name_char(c: char) -> char {
    if is_ascii_alnum(c) || c == '-' || c == '_' {
        c
    } else {
        '-'
    }
}

/// A name made safe for a file name: every other character becomes `-`.
pub fn sanitize_name(name: &str) -> (out: String)
    ensures
        out@ == name@.map_values(|c: char| name_char(c)),
{
    let s = chars_of(name);
    let mut out: Vec<char> = Vec::new();
    let mut i: usize = 0;
    while i < s.len()
        invariant
            i <= s@.len(),
            out@ == s@.take(i as int).map_values(|c: char| name_char(c)),
        decreases s@.len() - i,
    {
        let c = s[i];
        let keep = crate::text::is_ascii_alphanumeric(c) || c == '-' || c == '_';
        out.push(if keep {
            c
        } else {
            '-'
        });
        assert(s@.take(i + 1).map_values(|c: char| name_char(c)) =~= s@.take(i as int).map_values(
            |c: char| name_char(c),
        ).push(name_char(c)));
        i = i + 1;
    }
    assert(s@.take(i as int) =~= s@);
    string_of(out.as_slice())
}

/// A benchmark command's `{fixture_path}` and `{temp_dir}` filled in.
pub open spec fn expand_vars(value: Seq<char>, fixture_path: Seq<char>, temp_dir: Seq<char>) -> Seq<char> {
    replace(replace(value, "{fixture_path}"@, fixture_path), "{temp_dir}"@, temp_dir)
}

pub fn expand_variables(value: &str, fixture_path: &str, temp_dir: &str) -> (out: String)
    ensures
        out@ == expand_vars(value@, fixture_path@, temp_dir@),
{
    let v = chars_of(value);
    let fp = chars_of("{fixture_path}");
    let fixture = chars_of(fixture_path);
    proof {
        reveal_strlit("{fixture_path}");
    }
    let once = replace_all(v.as_slice(), fp.as_slice(), fixture.as_slice());
    let td = chars_of("{temp_dir}");
    let temp = chars_of(temp_dir);
    proof {
        reveal_strlit("{temp_dir}");
    }
    let twice = replace_all(once.as_slice(), td.as_slice(), temp.as_slice());
    string_of(twice.as_slice())
}

} // verus!
