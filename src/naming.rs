//! Test names and fixture files, derived from paths.

use vstd::prelude::*;
use vstd::string::*;

verus! {

/// The position of the last `c` in `p`, or -1 where there is none.
pub open spec fn last_pos(p: Seq<char>, c: char) -> int
    decreases p.len(),
{
    if p.len() == 0 {
        -1
    } else if p.last() == c {
        p.len() - 1
    } else {
        last_pos(p.drop_last(), c)
    }
}

/// The final component of a path: what follows its last `/`.
pub open spec fn final_component(p: Seq<char>) -> Seq<char> {
    p.subrange(last_pos(p, '/') + 1, p.len() as int)
}

/// A file name without its extension: what precedes the last `.`, where that
/// `.` is not the first character.
pub open spec fn stem(c: Seq<char>) -> Seq<char> {
    if last_pos(c, '.') > 0 {
        c.subrange(0, last_pos(c, '.'))
    } else {
        c
    }
}

/// A file name's extension: what follows the last `.`, where that `.` is not
/// the first character.
pub open spec fn extension(c: Seq<char>) -> Option<Seq<char>> {
    if last_pos(c, '.') > 0 {
        Some(c.subrange(last_pos(c, '.') + 1, c.len() as int))
    } else {
        None
    }
}

/// Every hyphen replaced by an underscore.
pub open spec fn underscored(s: Seq<char>) -> Seq<char> {
    s.map_values(|c: char| if c == '-' { '_' } else { c })
}

/// The test name of a fixture path: the final component without its
/// extension, hyphens replaced by underscores.
pub open spec fn test_name(p: Seq<char>) -> Seq<char> {
    underscored(stem(final_component(p)))
}

/// Whether a path names a fixture: its extension is `json`.
pub open spec fn is_fixture(p: Seq<char>) -> bool {
    extension(final_component(p)) == Some("json"@)
}

/// What `last_pos` finds.
pub proof fn lemma_last_pos(p: Seq<char>, c: char)
    ensures
        -1 <= last_pos(p, c) < p.len(),
        last_pos(p, c) >= 0 ==> p[last_pos(p, c)] == c,
        forall|j: int| last_pos(p, c) < j < p.len() ==> p[j] != c,
    decreases p.len(),
{
    if p.len() > 0 && p.last() != c {
        let q = p.drop_last();
        lemma_last_pos(q, c);
        assert forall|j: int| last_pos(p, c) < j < p.len() implies p[j] != c by {
            if j < q.len() {
                assert(q[j] == p[j]);
            }
        }
    }
}

/// The position of the last `c` in `s`.
fn find_last(s: &str, c: char) -> (r: Option<usize>)
    ensures
        match r {
            Some(i) => i < s@.len() && last_pos(s@, c) == i,
            None => last_pos(s@, c) == -1,
        },
{
    let mut i: usize = s.unicode_len();
    assert(s@.subrange(0, i as int) =~= s@);
    while i > 0
        invariant
            i <= s@.len(),
            last_pos(s@, c) == last_pos(s@.subrange(0, i as int), c),
        decreases i,
    {
        let ghost pre = s@.subrange(0, i as int);
        assert(pre.drop_last() =~= s@.subrange(0, i - 1));
        if s.get_char(i - 1) == c {
            return Some(i - 1);
        }
        i -= 1;
    }
    None
}

/// Whether `path` names a fixture file.
pub fn has_fixture_extension(path: &str) -> (r: bool)
    ensures
        r == is_fixture(path@),
{
    let n = path.unicode_len();
    let start: usize = match find_last(path, '/') {
        Some(k) => k + 1,
        None => 0,
    };
    let comp = path.substring_char(start, n);
    match find_last(comp, '.') {
        Some(d) => {
            if d == 0 {
                return false;
            }
            let ext = comp.substring_char(d + 1, comp.unicode_len());
            proof {
                reveal_strlit("json");
            }
            crate::section::text_eq(ext, "json")
        },
        None => false,
    }
}

/// The test name of a fixture path, or `None` where the path ends in `/` or
/// is empty.
pub fn name_of(path: &str) -> (r: Option<String>)
    ensures
        match r {
            Some(n) => final_component(path@).len() > 0 && n@ == test_name(path@),
            None => final_component(path@).len() == 0,
        },
{
    proof {
        lemma_last_pos(path@, '/');
    }
    let n = path.unicode_len();
    let start: usize = match find_last(path, '/') {
        Some(k) => k + 1,
        None => 0,
    };
    let comp = path.substring_char(start, n);
    let len = comp.unicode_len();
    if len == 0 {
        return None;
    }
    let end: usize = match find_last(comp, '.') {
        Some(d) => if d > 0 {
            d
        } else {
            len
        },
        None => len,
    };
    proof {
        lemma_last_pos(comp@, '.');
    }
    let ghost st = stem(comp@);
    assert(st.len() == end);
    let mut out = String::new();
    let mut i: usize = 0;
    while i < end
        invariant
            end == st.len(),
            end <= comp@.len(),
            st == comp@.subrange(0, end as int),
            i <= end,
            out@ == underscored(st.subrange(0, i as int)),
        decreases end - i,
    {
        let ch = comp.get_char(i);
        assert(st[i as int] == ch);
        proof {
            reveal_strlit("_");
        }
        assert("_"@ =~= seq!['_']);
        assert(comp@.subrange(i as int, i + 1) =~= seq![ch]);
        if ch == '-' {
            out.append("_");
        } else {
            out.append(comp.substring_char(i, i + 1));
        }
        assert(underscored(st.subrange(0, i + 1)) =~= underscored(st.subrange(0, i as int))
            + seq![if ch == '-' { '_' } else { ch }]);
        i += 1;
    }
    assert(st.subrange(0, end as int) =~= st);
    Some(out)
}

/// Hyphens mapped to underscores lose nothing on text that holds no
/// underscore.
pub proof fn lemma_underscored_injective(a: Seq<char>, b: Seq<char>)
    requires
        !a.contains('_'),
        !b.contains('_'),
        underscored(a) == underscored(b),
    ensures
        a == b,
{
    assert(a.len() == underscored(a).len());
    assert(b.len() == underscored(b).len());
    assert forall|i: int| 0 <= i < a.len() implies a[i] == b[i] by {
        assert(underscored(a)[i] == underscored(b)[i]);
        assert(underscored(a)[i] == (if a[i] == '-' { '_' } else { a[i] }));
        assert(underscored(b)[i] == (if b[i] == '-' { '_' } else { b[i] }));
        if a[i] != '-' {
            assert(a[i] != '_');
        }
        if b[i] != '-' {
            assert(b[i] != '_');
        }
    }
    assert(a =~= b);
}

/// Within one directory, test names tell fixture files apart: two fixture
/// file names whose stems hold no underscore and that give the same test
/// name are the same file name.
pub proof fn lemma_test_name_injective(a: Seq<char>, b: Seq<char>)
    requires
        !a.contains('/'),
        !b.contains('/'),
        is_fixture(a),
        is_fixture(b),
        !stem(a).contains('_'),
        !stem(b).contains('_'),
        test_name(a) == test_name(b),
    ensures
        a == b,
{
    lemma_whole_component(a);
    lemma_whole_component(b);
    lemma_underscored_injective(stem(a), stem(b));
    lemma_fixture_split(a);
    lemma_fixture_split(b);
}

/// A path without `/` is its own final component.
proof fn lemma_whole_component(a: Seq<char>)
    requires
        !a.contains('/'),
    ensures
        final_component(a) == a,
{
    lemma_last_pos(a, '/');
    if last_pos(a, '/') >= 0 {
        assert(a[last_pos(a, '/')] == '/');
    }
    assert(final_component(a) =~= a);
}

/// A fixture file name is its stem, a `.` and `json`.
proof fn lemma_fixture_split(a: Seq<char>)
    requires
        final_component(a) == a,
        is_fixture(a),
    ensures
        a == stem(a) + seq!['.'] + "json"@,
{
    lemma_last_pos(a, '.');
    let d = last_pos(a, '.');
    assert(a =~= a.subrange(0, d) + seq!['.'] + a.subrange(d + 1, a.len() as int));
}

} // verus!
