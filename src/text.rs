//! Line normalisation: whitespace classification, trimming and stripping.
use vstd::prelude::*;

verus! {

/// Unicode `White_Space` property, as used by `char::is_whitespace`.
pub open spec fn is_ws(c: char) -> bool {
    let u = c as u32;
    (0x9 <= u && u <= 0xd) || u == 0x20 || u == 0x85 || u == 0xa0 || u == 0x1680
        || (0x2000 <= u && u <= 0x200a) || u == 0x2028 || u == 0x2029 || u == 0x202f
        || u == 0x205f || u == 0x3000
}

/// Every character of `s` is whitespace (true of the empty sequence).
pub open spec fn all_ws(s: Seq<char>) -> bool {
    forall|k: int| 0 <= k < s.len() ==> is_ws(#[trigger] s[k])
}

/// No character of `s` is whitespace.
pub open spec fn no_ws(s: Seq<char>) -> bool {
    forall|k: int| 0 <= k < s.len() ==> !is_ws(#[trigger] s[k])
}

/// `s` without its leading whitespace.
pub open spec fn trim_start(s: Seq<char>) -> Seq<char>
    decreases s.len(),
{
    if s.len() > 0 && is_ws(s[0]) {
        trim_start(s.drop_first())
    } else {
        s
    }
}

/// `s` without its trailing whitespace.
pub open spec fn trim_end(s: Seq<char>) -> Seq<char>
    decreases s.len(),
{
    if s.len() > 0 && is_ws(s.last()) {
        trim_end(s.drop_last())
    } else {
        s
    }
}

/// `s` without leading and trailing whitespace.
pub open spec fn trimmed(s: Seq<char>) -> Seq<char> {
    trim_end(trim_start(s))
}

/// `s` with every whitespace character removed, the others kept in order.
pub open spec fn strip_ws(s: Seq<char>) -> Seq<char>
    decreases s.len(),
{
    if s.len() == 0 {
        s
    } else if is_ws(s.last()) {
        strip_ws(s.drop_last())
    } else {
        strip_ws(s.drop_last()).push(s.last())
    }
}

/// Whether `c` is a whitespace character.
pub fn is_whitespace(c: char) -> (r: bool)
    ensures
        r == is_ws(c),
{
    let u = c as u32;
    (0x9 <= u && u <= 0xd) || u == 0x20 || u == 0x85 || u == 0xa0 || u == 0x1680 || (0x2000
        <= u && u <= 0x200a) || u == 0x2028 || u == 0x2029 || u == 0x202f || u == 0x205f || u
        == 0x3000
}

/// A sequence trims to the empty sequence exactly when it is all whitespace.
pub proof fn lemma_trim_start_empty(s: Seq<char>)
    ensures
        (trim_start(s).len() == 0) == all_ws(s),
        trim_start(s).len() > 0 ==> !is_ws(trim_start(s)[0]),
    decreases s.len(),
{
    if s.len() > 0 && is_ws(s[0]) {
        lemma_trim_start_empty(s.drop_first());
        if all_ws(s.drop_first()) {
            assert forall|k: int| 0 <= k < s.len() implies is_ws(#[trigger] s[k]) by {
                if k > 0 {
                    assert(s[k] == s.drop_first()[k - 1]);
                }
            }
        }
        if !all_ws(s.drop_first()) {
            let k = choose|k: int| 0 <= k < s.drop_first().len() && !is_ws(#[trigger] s.drop_first()[k]);
            assert(s[k + 1] == s.drop_first()[k]);
        }
    } else if s.len() > 0 {
        assert(!is_ws(s[0]));
    }
}

proof fn lemma_trim_start_within(s: Seq<char>)
    ensures
        forall|c: char| trim_start(s).contains(c) ==> s.contains(c),
    decreases s.len(),
{
    if s.len() > 0 && is_ws(s[0]) {
        lemma_trim_start_within(s.drop_first());
        assert forall|c: char| s.drop_first().contains(c) implies s.contains(c) by {
            let k = choose|k: int| 0 <= k < s.drop_first().len() && s.drop_first()[k] == c;
            assert(s[k + 1] == c);
        }
    }
}

proof fn lemma_trim_end_within(s: Seq<char>)
    ensures
        forall|c: char| trim_end(s).contains(c) ==> s.contains(c),
    decreases s.len(),
{
    if s.len() > 0 && is_ws(s.last()) {
        lemma_trim_end_within(s.drop_last());
        assert forall|c: char| s.drop_last().contains(c) implies s.contains(c) by {
            let k = choose|k: int| 0 <= k < s.drop_last().len() && s.drop_last()[k] == c;
            assert(s[k] == c);
        }
    }
}

/// Every character of the trimmed sequence occurs in the original.
pub proof fn lemma_trimmed_within(s: Seq<char>)
    ensures
        forall|c: char| trimmed(s).contains(c) ==> s.contains(c),
{
    lemma_trim_start_within(s);
    lemma_trim_end_within(trim_start(s));
}

/// The result of stripping holds no whitespace.
pub proof fn lemma_strip_ws_has_none(s: Seq<char>)
    ensures
        no_ws(strip_ws(s)),
    decreases s.len(),
{
    if s.len() > 0 {
        lemma_strip_ws_has_none(s.drop_last());
    }
}

/// `line` without leading and trailing whitespace, or `None` where nothing
/// else is left.
pub fn clean_line(line: &str) -> (r: Option<String>)
    ensures
        r is None <==> all_ws(line@),
        r matches Some(t) ==> t@ == trimmed(line@) && t@.len() > 0,
{
    let n = line.unicode_len();
    let ghost s = line@;
    let mut i: usize = 0;
    proof {
        assert(s.subrange(0, n as int) =~= s);
    }
    while i < n && is_whitespace(line.get_char(i))
        invariant
            n == s.len(),
            s == line@,
            i <= n,
            trim_start(s) == trim_start(s.subrange(i as int, n as int)),
            all_ws(s.subrange(0, i as int)),
        decreases n - i,
    {
        proof {
            let t = s.subrange(i as int, n as int);
            assert(t.drop_first() =~= s.subrange(i + 1, n as int));
            assert(t[0] == s[i as int]);
            assert forall|k: int| 0 <= k < i + 1 implies is_ws(#[trigger] s.subrange(0, i + 1)[k]) by {
                if k < i {
                    assert(s.subrange(0, i + 1)[k] == s.subrange(0, i as int)[k]);
                }
            }
        }
        i = i + 1;
    }
    proof {
        let t = s.subrange(i as int, n as int);
        assert(trim_start(t) == t);
        if i == n {
            assert(s.subrange(0, i as int) =~= s);
        }
    }
    if i == n {
        proof {
            lemma_trim_start_empty(s);
        }
        return None;
    }
    let ghost start = s.subrange(i as int, n as int);
    let mut j: usize = n;
    while j > i + 1 && is_whitespace(line.get_char(j - 1))
        invariant
            n == s.len(),
            s == line@,
            i < j <= n,
            !is_ws(s[i as int]),
            start == s.subrange(i as int, n as int),
            trim_end(start) == trim_end(s.subrange(i as int, j as int)),
        decreases j,
    {
        proof {
            let t = s.subrange(i as int, j as int);
            assert(t.drop_last() =~= s.subrange(i as int, j - 1));
            assert(t.last() == s[j - 1]);
        }
        j = j - 1;
    }
    proof {
        let t = s.subrange(i as int, j as int);
        assert(t[0] == s[i as int]);
        if j == i + 1 {
            assert(!is_ws(t.last()));
        }
        assert(trim_end(t) == t);
        assert(!all_ws(s)) by {
            assert(!is_ws(s[i as int]));
        }
    }
    let r = String::from_str(line.substring_char(i, j));
    Some(r)
}

/// `s` with every whitespace character removed.
pub fn strip_whitespace(s: &str) -> (r: String)
    ensures
        r@ == strip_ws(s@),
        no_ws(r@),
{
    let n = s.unicode_len();
    let mut r = String::new();
    let mut i: usize = 0;
    while i < n
        invariant
            n == s@.len(),
            i <= n,
            r@ == strip_ws(s@.subrange(0, i as int)),
        decreases n - i,
    {
        let c = s.get_char(i);
        proof {
            assert(s@.subrange(0, i + 1).drop_last() =~= s@.subrange(0, i as int));
            assert(s@.subrange(0, i + 1).last() == c);
        }
        if !is_whitespace(c) {
            let piece = s.substring_char(i, i + 1);
            proof {
                assert(piece@ =~= seq![c]);
            }
            r.append(piece);
            proof {
                assert(r@ =~= strip_ws(s@.subrange(0, i as int)).push(c));
            }
        }
        i = i + 1;
    }
    proof {
        assert(s@.subrange(0, n as int) =~= s@);
        lemma_strip_ws_has_none(s@);
    }
    r
}

} // verus!
