use vstd::prelude::*;
use vstd::string::StrSliceExecFns;
use vstd::string::StringExecFns;

verus! {

/// A character that trimming a token removes from either end: the code points
/// with the Unicode `White_Space` property.
pub open spec fn is_wspace(c: char) -> bool {
    ||| c as u32 == 0x20
    ||| (0x09 <= c as u32 && c as u32 <= 0x0D)
    ||| c as u32 == 0x85
    ||| c as u32 == 0xA0
    ||| c as u32 == 0x1680
    ||| (0x2000 <= c as u32 && c as u32 <= 0x200A)
    ||| c as u32 == 0x2028
    ||| c as u32 == 0x2029
    ||| c as u32 == 0x202F
    ||| c as u32 == 0x205F
    ||| c as u32 == 0x3000
}

/// Decide `is_wspace` for one character.
pub fn is_space_char(c: char) -> (r: bool)
    ensures
        r == is_wspace(c),
{
    let u = c as u32;
    u == 0x20 || (0x09 <= u && u <= 0x0D) || u == 0x85 || u == 0xA0 || u == 0x1680 || (0x2000
        <= u && u <= 0x200A) || u == 0x2028 || u == 0x2029 || u == 0x202F || u == 0x205F || u
        == 0x3000
}

/// The sequence with leading whitespace removed.
pub open spec fn trim_front(s: Seq<char>) -> Seq<char>
    decreases s.len(),
{
    if s.len() > 0 && is_wspace(s[0]) {
        trim_front(s.drop_first())
    } else {
        s
    }
}

/// The sequence with trailing whitespace removed.
pub open spec fn trim_back(s: Seq<char>) -> Seq<char>
    decreases s.len(),
{
    if s.len() > 0 && is_wspace(s.last()) {
        trim_back(s.drop_last())
    } else {
        s
    }
}

/// The sequence with whitespace removed from both ends.
pub open spec fn trim_spec(s: Seq<char>) -> Seq<char> {
    trim_back(trim_front(s))
}

/// The index of the first space character of `s` at or after `i`, or `s.len()`
/// if there is none.
pub open spec fn first_space_from(s: Seq<char>, i: int) -> int
    decreases s.len() - i,
{
    if i < 0 || i >= s.len() {
        s.len() as int
    } else if s[i] == ' ' {
        i
    } else {
        first_space_from(s, i + 1)
    }
}

pub proof fn lemma_first_space_bounds(s: Seq<char>, i: int)
    requires
        0 <= i <= s.len(),
    ensures
        i <= first_space_from(s, i) <= s.len(),
    decreases s.len() - i,
{
    if i < s.len() && s[i] != ' ' {
        lemma_first_space_bounds(s, i + 1);
    }
}

/// Find the first space character of `s` at or after `from`.
pub fn find_space(s: &str, from: usize) -> (r: usize)
    requires
        from <= s@.len(),
    ensures
        r == first_space_from(s@, from as int),
        from <= r <= s@.len(),
{
    let len = s.unicode_len();
    let mut i = from;
    while i < len
        invariant
            from <= i <= len,
            len == s@.len(),
            first_space_from(s@, from as int) == first_space_from(s@, i as int),
        decreases len - i,
    {
        if s.get_char(i) == ' ' {
            return i;
        }
        i += 1;
    }
    i
}

/// The substring of `s` from `start` to `end`, trimmed at both ends.
pub fn trimmed(s: &str, start: usize, end: usize) -> (r: String)
    requires
        start <= end <= s@.len(),
    ensures
        r@ == trim_spec(s@.subrange(start as int, end as int)),
{
    let mut a = start;
    let b0 = end;
    while a < b0 && is_space_char(s.get_char(a))
        invariant
            start <= a <= b0,
            b0 == end,
            end <= s@.len(),
            trim_front(s@.subrange(start as int, end as int)) == trim_front(
                s@.subrange(a as int, end as int),
            ),
        decreases b0 - a,
    {
        proof {
            let sub = s@.subrange(a as int, end as int);
            assert(sub[0] == s@[a as int]);
            assert(sub.drop_first() =~= s@.subrange(a as int + 1, end as int));
        }
        a += 1;
    }
    proof {
        let sub = s@.subrange(a as int, end as int);
        if a < end {
            assert(sub[0] == s@[a as int]);
        }
        assert(trim_front(sub) == sub);
    }
    let mut b = end;
    while b > a && is_space_char(s.get_char(b - 1))
        invariant
            start <= a <= b <= end,
            end <= s@.len(),
            trim_front(s@.subrange(start as int, end as int)) == s@.subrange(a as int, end as int),
            trim_back(s@.subrange(a as int, end as int)) == trim_back(
                s@.subrange(a as int, b as int),
            ),
        decreases b,
    {
        proof {
            let sub = s@.subrange(a as int, b as int);
            assert(sub.last() == s@[b - 1]);
            assert(sub.drop_last() =~= s@.subrange(a as int, b as int - 1));
        }
        b -= 1;
    }
    proof {
        let sub = s@.subrange(a as int, b as int);
        if b > a {
            assert(sub.last() == s@[b - 1]);
        }
        assert(trim_back(sub) == sub);
    }
    let t = s.substring_char(a, b);
    String::from_str(t)
}

/// Compare two string slices character by character.
pub fn str_eq(a: &str, b: &str) -> (r: bool)
    ensures
        r == (a@ == b@),
{
    let alen = a.unicode_len();
    let blen = b.unicode_len();
    if alen != blen {
        return false;
    }
    let mut i: usize = 0;
    while i < alen
        invariant
            alen == a@.len(),
            blen == b@.len(),
            alen == blen,
            i <= alen,
            forall|j: int| 0 <= j < i ==> a@[j] == b@[j],
        decreases alen - i,
    {
        if a.get_char(i) != b.get_char(i) {
            return false;
        }
        i += 1;
    }
    proof {
        assert(a@ =~= b@);
    }
    true
}

/// The index right after the last `.` of `s`, or `0` if `s` has no `.`.
pub open spec fn ext_start(s: Seq<char>) -> int
    decreases s.len(),
{
    if s.len() == 0 {
        0
    } else if s.last() == '.' {
        s.len() as int
    } else {
        ext_start(s.drop_last())
    }
}

pub proof fn lemma_ext_start_bounds(s: Seq<char>)
    ensures
        0 <= ext_start(s) <= s.len(),
    decreases s.len(),
{
    if s.len() > 0 && s.last() != '.' {
        lemma_ext_start_bounds(s.drop_last());
    }
}

/// The extension of a path: everything after the last `.`, or the whole
/// path when it has no `.` at all.
pub open spec fn spec_ext(s: Seq<char>) -> Seq<char> {
    s.subrange(ext_start(s), s.len() as int)
}

/// Extract the extension of `path` as `spec_ext` gives it.
pub fn extension_of(path: &str) -> (r: String)
    ensures
        r@ == spec_ext(path@),
{
    let len = path.unicode_len();
    proof {
        assert(path@.subrange(0, len as int) =~= path@);
        lemma_ext_start_bounds(path@);
    }
    let mut i = len;
    while i > 0
        invariant
            i <= len,
            len == path@.len(),
            ext_start(path@) == ext_start(path@.subrange(0, i as int)),
        decreases i,
    {
        proof {
            let sub = path@.subrange(0, i as int);
            assert(sub.last() == path@[i - 1]);
            assert(sub.drop_last() =~= path@.subrange(0, i as int - 1));
        }
        if path.get_char(i - 1) == '.' {
            let t = path.substring_char(i, len);
            return String::from_str(t);
        }
        i -= 1;
    }
    proof {
        assert(path@.subrange(0, 0).len() == 0);
        assert(spec_ext(path@) =~= path@);
    }
    let t = path.substring_char(0, len);
    String::from_str(t)
}

} // verus!
