use vstd::prelude::*;

verus! {

/// The whitespace characters the viewer trims: the Unicode White_Space
/// set, the same characters `char::is_whitespace` accepts.
pub open spec fn is_space(c: char) -> bool {
    let u = c as u32;
    (0x9 <= u && u <= 0xd) || u == 0x20 || u == 0x85 || u == 0xa0 || u == 0x1680 || (0x2000 <= u
        && u <= 0x200a) || u == 0x2028 || u == 0x2029 || u == 0x202f || u == 0x205f || u == 0x3000
}

fn is_space_exec(c: char) -> (r: bool)
    ensures
        r == is_space(c),
{
    let u = c as u32;
    (0x9 <= u && u <= 0xd) || u == 0x20 || u == 0x85 || u == 0xa0 || u == 0x1680 || (0x2000 <= u
        && u <= 0x200a) || u == 0x2028 || u == 0x2029 || u == 0x202f || u == 0x205f || u == 0x3000
}

/// `s` without its leading whitespace.
pub open spec fn trim_front(s: Seq<char>) -> Seq<char>
    decreases s.len(),
{
    if s.len() > 0 && is_space(s[0]) {
        trim_front(s.subrange(1, s.len() as int))
    } else {
        s
    }
}

/// `s` without its trailing whitespace.
pub open spec fn trim_back(s: Seq<char>) -> Seq<char>
    decreases s.len(),
{
    if s.len() > 0 && is_space(s.last()) {
        trim_back(s.drop_last())
    } else {
        s
    }
}

/// `s` without leading and trailing whitespace.
pub open spec fn trim_spec(s: Seq<char>) -> Seq<char> {
    trim_back(trim_front(s))
}

proof fn lemma_trim_front_at(s: Seq<char>, a: int)
    requires
        0 <= a <= s.len(),
        forall|k: int| 0 <= k < a ==> is_space(s[k]),
        a < s.len() ==> !is_space(s[a]),
    ensures
        trim_front(s) =~= s.subrange(a, s.len() as int),
    decreases a,
{
    if a == 0 {
        if s.len() > 0 && is_space(s[0]) {
            assert(false);
        }
    } else {
        let t = s.subrange(1, s.len() as int);
        lemma_trim_front_at(t, a - 1);
        assert(t.subrange(a - 1, t.len() as int) =~= s.subrange(a, s.len() as int));
    }
}

proof fn lemma_trim_back_at(s: Seq<char>, b: int)
    requires
        0 <= b <= s.len(),
        forall|k: int| b <= k < s.len() ==> is_space(s[k]),
        b > 0 ==> !is_space(s[b - 1]),
    ensures
        trim_back(s) =~= s.subrange(0, b),
    decreases s.len() - b,
{
    if b == s.len() {
        if s.len() > 0 && is_space(s.last()) {
            assert(false);
        }
        assert(s.subrange(0, b) =~= s);
    } else {
        assert(is_space(s.last()));
        lemma_trim_back_at(s.drop_last(), b);
        assert(s.drop_last().subrange(0, b) =~= s.subrange(0, b));
    }
}

/// Copies `s[from..to]` into a fresh vector.
pub fn subrange_chars(s: &Vec<char>, from: usize, to: usize) -> (r: Vec<char>)
    requires
        from <= to <= s@.len(),
    ensures
        r@ == s@.subrange(from as int, to as int),
{
    let r = vstd::slice::slice_to_vec(vstd::slice::slice_subrange(s.as_slice(), from, to));
    proof {
        assert(r@ =~= s@.subrange(from as int, to as int));
    }
    r
}

/// Removes leading and trailing whitespace.
pub fn trim_chars(s: &Vec<char>) -> (r: Vec<char>)
    ensures
        r@ == trim_spec(s@),
{
    let n = s.len();
    let mut a: usize = 0;
    while a < n && is_space_exec(s[a])
        invariant
            0 <= a <= n,
            n == s@.len(),
            forall|k: int| 0 <= k < a ==> is_space(s@[k]),
        decreases n - a,
    {
        a = a + 1;
    }
    proof {
        lemma_trim_front_at(s@, a as int);
    }
    let mut b: usize = n;
    while b > a && is_space_exec(s[b - 1])
        invariant
            a <= b <= n,
            n == s@.len(),
            forall|k: int| b <= k < n ==> is_space(s@[k]),
        decreases b,
    {
        b = b - 1;
    }
    proof {
        let t = s@.subrange(a as int, n as int);
        lemma_trim_back_at(t, b - a);
        assert(t.subrange(0, b - a) =~= s@.subrange(a as int, b as int));
    }
    subrange_chars(s, a, b)
}

/// The index of the first newline in `s`, or `s.len()` if there is none.
pub open spec fn first_newline(s: Seq<char>) -> nat
    decreases s.len(),
{
    if s.len() == 0 {
        0
    } else if s[0] == '\n' {
        0
    } else {
        1 + first_newline(s.subrange(1, s.len() as int))
    }
}

proof fn lemma_first_newline(s: Seq<char>)
    ensures
        first_newline(s) <= s.len(),
        first_newline(s) < s.len() ==> s[first_newline(s) as int] == '\n',
        forall|k: int| 0 <= k < first_newline(s) ==> s[k] != '\n',
    decreases s.len(),
{
    if s.len() > 0 && s[0] != '\n' {
        let t = s.subrange(1, s.len() as int);
        lemma_first_newline(t);
        assert forall|k: int| 0 <= k < first_newline(s) implies s[k] != '\n' by {
            if k > 0 {
                assert(t[k - 1] != '\n');
            }
        }
    }
}

/// `s` without a single trailing carriage return, if one is there.
pub open spec fn strip_cr(s: Seq<char>) -> Seq<char> {
    if s.len() > 0 && s.last() == '\r' {
        s.drop_last()
    } else {
        s
    }
}

/// The lines of `s`: maximal newline-free runs, each without a trailing
/// carriage return; a final newline does not open an empty last line.
pub open spec fn split_lines(s: Seq<char>) -> Seq<Seq<char>>
    decreases s.len(),
{
    if s.len() == 0 {
        seq![]
    } else {
        let i = first_newline(s);
        if i >= s.len() {
            seq![strip_cr(s)]
        } else {
            seq![strip_cr(s.subrange(0, i as int))] + split_lines(
                s.subrange(i as int + 1, s.len() as int),
            )
        }
    }
}

/// The views of a vector of character vectors.
pub open spec fn views_of(vs: Seq<Vec<char>>) -> Seq<Seq<char>> {
    vs.map_values(|v: Vec<char>| v@)
}

fn strip_cr_exec(line: &mut Vec<char>)
    ensures
        final(line)@ == strip_cr(old(line)@),
{
    let n = line.len();
    if n > 0 {
        if line[n - 1] == '\r' {
            line.pop();
        }
    }
}

/// Splits `s` into its lines, as `split_lines` describes.
pub fn split_lines_chars(s: &Vec<char>) -> (r: Vec<Vec<char>>)
    ensures
        views_of(r@) == split_lines(s@),
{
    let n = s.len();
    let mut r: Vec<Vec<char>> = Vec::new();
    let mut p: usize = 0;
    proof {
        assert(views_of(r@) =~= Seq::<Seq<char>>::empty());
        assert(s@.subrange(0, n as int) =~= s@);
        assert(views_of(r@) + split_lines(s@) =~= split_lines(s@));
    }
    while p < n
        invariant
            0 <= p <= n,
            n == s@.len(),
            split_lines(s@) =~= views_of(r@) + split_lines(s@.subrange(p as int, n as int)),
        decreases n - p,
    {
        let ghost rest = s@.subrange(p as int, n as int);
        let mut j: usize = p;
        while j < n && s[j] != '\n'
            invariant
                p <= j <= n,
                n == s@.len(),
                forall|k: int| p <= k < j ==> s@[k] != '\n',
            decreases n - j,
        {
            j = j + 1;
        }
        proof {
            lemma_first_newline(rest);
            // the scan and the spec agree on the first newline of `rest`
            assert forall|k: int| 0 <= k < j - p implies rest[k] != '\n' by {
                assert(s@[p + k] != '\n');
            }
            if j < n {
                assert(rest[j - p] == '\n');
            }
            if first_newline(rest) < j - p {
                assert(s@[p + first_newline(rest)] != '\n');
                assert(false);
            }
            if first_newline(rest) > j - p {
                assert(j < n ==> rest[j - p] != '\n');
                assert(j - p < rest.len() ==> j < n);
                assert(false);
            }
            assert(first_newline(rest) == j - p);
        }
        let mut line = subrange_chars(s, p, j);
        proof {
            assert(line@ =~= rest.subrange(0, j - p));
        }
        strip_cr_exec(&mut line);
        let ghost old_r = r@;
        r.push(line);
        proof {
            assert(views_of(r@) =~= views_of(old_r).push(line@));
        }
        if j < n {
            proof {
                assert(rest.subrange(j - p + 1, rest.len() as int) =~= s@.subrange(
                    j + 1,
                    n as int,
                ));
                assert(split_lines(rest) =~= seq![strip_cr(rest.subrange(0, j - p))] + split_lines(
                    s@.subrange(j + 1, n as int),
                ));
            }
            p = j + 1;
        } else {
            proof {
                assert(rest.subrange(0, j - p) =~= rest);
                assert(split_lines(rest) =~= seq![strip_cr(rest)]);
                assert(s@.subrange(n as int, n as int) =~= Seq::<char>::empty());
            }
            p = n;
        }
    }
    proof {
        assert(s@.subrange(p as int, n as int) =~= Seq::<char>::empty());
        assert(views_of(r@) =~= split_lines(s@));
    }
    r
}

/// The noise-compacted form of a line sequence: each line trimmed, blank
/// lines dropped, every kept line terminated by a newline.
pub open spec fn normalize_lines(lines: Seq<Seq<char>>) -> Seq<char>
    decreases lines.len(),
{
    if lines.len() == 0 {
        seq![]
    } else {
        let t = trim_spec(lines[0]);
        (if t.len() == 0 {
            seq![]
        } else {
            t.push('\n')
        }) + normalize_lines(lines.drop_first())
    }
}

/// The normalized body: trimmed outright, then compacted line by line.
pub open spec fn normalize_spec(s: Seq<char>) -> Seq<char> {
    normalize_lines(split_lines(trim_spec(s)))
}

/// Compacts a body of text: trims it, drops lines that are blank after
/// trimming, trims the rest, and rejoins them with newline terminators.
pub fn normalize_chars(s: &Vec<char>) -> (r: Vec<char>)
    ensures
        r@ == normalize_spec(s@),
{
    let t = trim_chars(s);
    let lines = split_lines_chars(&t);
    let n = lines.len();
    let mut r: Vec<char> = Vec::new();
    let mut i: usize = 0;
    proof {
        assert(views_of(lines@).subrange(0, n as int) =~= views_of(lines@));
        assert(r@ + normalize_lines(views_of(lines@)) =~= normalize_lines(views_of(lines@)));
    }
    while i < n
        invariant
            0 <= i <= n,
            n == lines@.len(),
            views_of(lines@) == split_lines(trim_spec(s@)),
            normalize_spec(s@) =~= r@ + normalize_lines(views_of(lines@).subrange(
                i as int,
                n as int,
            )),
        decreases n - i,
    {
        let ghost rest = views_of(lines@).subrange(i as int, n as int);
        let lt = trim_chars(&lines[i]);
        proof {
            assert(rest[0] == lines@[i as int]@);
            assert(rest.drop_first() =~= views_of(lines@).subrange(i + 1, n as int));
        }
        if lt.len() > 0 {
            let ghost before = r@;
            r.extend_from_slice(lt.as_slice());
            r.push('\n');
            proof {
                assert(r@ =~= before + trim_spec(rest[0]).push('\n'));
            }
        }
        i = i + 1;
    }
    proof {
        assert(views_of(lines@).subrange(n as int, n as int) =~= Seq::<Seq<char>>::empty());
    }
    r
}

/// Collects the characters of a string slice into a vector.
pub fn str_to_chars(s: &str) -> (v: Vec<char>)
    ensures
        v@ == s@,
{
    let n = s.unicode_len();
    let mut v: Vec<char> = Vec::new();
    let mut i: usize = 0;
    while i < n
        invariant
            0 <= i <= n,
            n == s@.len(),
            v@ =~= s@.subrange(0, i as int),
        decreases n - i,
    {
        v.push(s.get_char(i));
        i = i + 1;
    }
    proof {
        assert(v@ =~= s@);
    }
    v
}

/// Relies on `String`'s `FromIterator<char>` impl: collecting chars
/// yields the string of exactly those chars, in order.
#[verifier::external_body]
pub fn chars_to_string(v: &Vec<char>) -> (s: String)
    ensures
        s@ == v@,
{
    v.iter().collect()
}

} // verus!
