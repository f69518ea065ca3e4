//! From a file's path to the name of its table.

use crate::text::{chars_of, push_hex, string_of};
use vstd::prelude::*;

verus! {

/// Where the leaf name of `path` begins: just after its last `/`, or at its
/// start where it has none.
pub open spec fn leaf_start(path: Seq<char>) -> int
    decreases path.len(),
{
    if path.len() == 0 {
        0
    } else if path.last() == '/' {
        path.len() as int
    } else {
        leaf_start(path.drop_last())
    }
}

/// The last part of `path`: what follows its last `/`.
pub open spec fn leaf_name(path: Seq<char>) -> Seq<char> {
    path.skip(leaf_start(path))
}

/// The last component of `path`: the last of its parts between `/` that is
/// neither empty nor `.`, so that separators and `.` parts at the end of
/// the path are passed over. It is empty where the path has no such part.
pub open spec fn last_component(path: Seq<char>) -> Seq<char>
    decreases path.len(),
{
    if leaf_name(path).len() > 0 && leaf_name(path) != seq!['.'] {
        leaf_name(path)
    } else if 0 < leaf_start(path) <= path.len() {
        last_component(path.take(leaf_start(path) - 1))
    } else {
        Seq::empty()
    }
}

/// How many characters of `name` stand before its first `.`.
pub open spec fn stem_len(name: Seq<char>) -> int
    decreases name.len(),
{
    if name.len() == 0 {
        0
    } else if name[0] == '.' {
        0
    } else {
        1 + stem_len(name.skip(1))
    }
}

/// The last component of `path` up to, and without, its first `.`. There
/// is none where the path has no last component, as an empty path or one
/// made of separators and `.` parts only, and where its last component is
/// `..`.
pub open spec fn remove_extension_spec(path: Seq<char>) -> Option<Seq<char>> {
    let leaf = last_component(path);
    if leaf.len() == 0 || leaf == seq!['.', '.'] {
        None
    } else {
        Some(leaf.take(stem_len(leaf)))
    }
}

/// `name` with every space replaced by `_`.
pub open spec fn sanitize_spec(name: Seq<char>) -> Seq<char> {
    name.map_values(
        |c: char|
            if c == ' ' {
                '_'
            } else {
                c
            },
    )
}

/// A prefix without `/` after `start` has its leaf where the whole has it,
/// once the whole has no `/` after `start` either.
proof fn lemma_leaf_start_found(path: Seq<char>, start: int)
    requires
        0 <= start <= path.len(),
        start > 0 ==> path[start - 1] == '/',
        forall|j: int| start <= j < path.len() ==> path[j] != '/',
    ensures
        leaf_start(path) == start,
    decreases path.len(),
{
    if path.len() > 0 {
        if path.last() == '/' {
        } else {
            lemma_leaf_start_found(path.drop_last(), start);
        }
    }
}

proof fn lemma_stem_len_found(name: Seq<char>, end: int)
    requires
        0 <= end <= name.len(),
        end < name.len() ==> name[end] == '.',
        forall|j: int| 0 <= j < end ==> name[j] != '.',
    ensures
        stem_len(name) == end,
    decreases name.len(),
{
    if name.len() > 0 && end > 0 {
        assert(name[0] != '.');
        assert forall|j: int| 0 <= j < end - 1 implies name.skip(1)[j] != '.' by {
            assert(name.skip(1)[j] == name[j + 1]);
        }
        lemma_stem_len_found(name.skip(1), end - 1);
    }
}

/// The last component of `path` up to, and without, its first `.`.
/// Separators and `.` parts at the end of the path are passed over. A path
/// without a last component, or whose last component is `..`, gives
/// nothing.
pub fn remove_extension(path: &str) -> (r: Option<String>)
    ensures
        match r {
            Some(stem) => remove_extension_spec(path@) == Some(stem@),
            None => remove_extension_spec(path@) is None,
        },
{
    let chars = chars_of(path);
    let mut end: usize = chars.len();
    let mut start: usize = 0;
    let mut found = false;
    assert(chars@.take(chars.len() as int) =~= chars@);
    while !found
        invariant
            end <= chars.len(),
            chars@ == path@,
            last_component(chars@) == last_component(chars@.take(end as int)),
            found ==> {
                &&& start < end
                &&& leaf_start(chars@.take(end as int)) == start
                &&& chars@.subrange(start as int, end as int) != seq!['.']
            },
        decreases end + if found { 0int } else { 1int },
    {
        let ghost whole = chars@.take(end as int);
        start = end;
        while start > 0 && chars[start - 1] != '/'
            invariant
                start <= end <= chars.len(),
                forall|j: int| start <= j < end ==> chars@[j] != '/',
            decreases start,
        {
            start -= 1;
        }
        proof {
            lemma_leaf_start_found(whole, start as int);
            assert(leaf_name(whole) =~= chars@.subrange(start as int, end as int));
        }
        if start == end || (end - start == 1 && chars[start] == '.') {
            proof {
                if end - start == 1 {
                    assert(leaf_name(whole) =~= seq!['.']);
                }
            }
            if start == 0 {
                assert(last_component(whole).len() == 0);
                return None;
            }
            proof {
                assert(whole.take(start - 1) =~= chars@.take(start - 1));
            }
            end = start - 1;
        } else {
            proof {
                if leaf_name(whole) == seq!['.'] {
                    assert(leaf_name(whole).len() == 1);
                    assert(leaf_name(whole)[0] == '.');
                }
            }
            found = true;
        }
    }
    let ghost leaf = chars@.subrange(start as int, end as int);
    proof {
        assert(leaf_name(chars@.take(end as int)) =~= leaf);
        assert(last_component(chars@) == leaf);
    }
    if end - start == 2 && chars[start] == '.' && chars[start + 1] == '.' {
        assert(leaf =~= seq!['.', '.']);
        return None;
    }
    proof {
        if leaf == seq!['.', '.'] {
            assert(leaf.len() == 2);
            assert(leaf[0] == '.' && leaf[1] == '.');
        }
    }
    let mut stop: usize = start;
    while stop < end && chars[stop] != '.'
        invariant
            start <= stop <= end <= chars.len(),
            leaf == chars@.subrange(start as int, end as int),
            forall|j: int| 0 <= j < stop - start ==> leaf[j] != '.',
        decreases end - stop,
    {
        stop += 1;
    }
    proof {
        lemma_stem_len_found(leaf, stop - start);
        assert(chars@.subrange(start as int, stop as int) =~= leaf.take(stop - start));
    }
    Some(string_of(&chars, start, stop))
}

/// Replaces every space of the name with `_`.
pub fn sanitize(str: Option<String>) -> (r: Option<String>)
    ensures
        match str {
            Some(name) => r is Some && r.unwrap()@ == sanitize_spec(name@),
            None => r is None,
        },
{
    match str {
        Some(name) => {
            let chars = chars_of(name.as_str());
            let mut out = String::new();
            let mut i: usize = 0;
            while i < chars.len()
                invariant
                    i <= chars.len(),
                    chars@ == name@,
                    out@ == sanitize_spec(name@.take(i as int)),
                decreases chars.len() - i,
            {
                let c = chars[i];
                if c == ' ' {
                    out.push('_');
                } else {
                    out.push(c);
                }
                assert(out@ =~= sanitize_spec(name@.take(i as int + 1)));
                i += 1;
            }
            assert(name@.take(chars.len() as int) =~= name@);
            Some(out)
        },
        None => None,
    }
}

/// The sixteen bytes of `n`, most significant first.
pub open spec fn be_bytes(n: u128) -> Seq<u8> {
    Seq::new(16, |i: int| ((n >> ((8 * (15 - i)) as u128)) & 0xff) as u8)
}

/// The name of a table that no file gave a name to: `t`, then the 32
/// hexadecimal digits of `n`.
pub open spec fn fresh_name(n: u128) -> Seq<char> {
    seq!['t'] + crate::text::hex(be_bytes(n))
}

/// The table name that `path` itself gives: its last component up to the
/// first `.`, with `_` for every space. It gives none where it has no such
/// component or where that is empty.
pub open spec fn derived_name(path: Seq<char>) -> Option<Seq<char>> {
    match remove_extension_spec(path) {
        Some(stem) => if stem.len() > 0 {
            Some(sanitize_spec(stem))
        } else {
            None
        },
        None => None,
    }
}

/// The name of the table that holds the file at `path`: the name that the
/// path gives or, where it gives none, the fresh name made from `n`.
pub open spec fn table_name_spec(path: Seq<char>, n: u128) -> Seq<char> {
    match derived_name(path) {
        Some(name) => name,
        None => fresh_name(n),
    }
}

/// The table name that `path` itself gives, if it gives one.
pub fn derived_table_name(path: &str) -> (r: Option<String>)
    ensures
        match r {
            Some(name) => derived_name(path@) == Some(name@) && name@.len() > 0,
            None => derived_name(path@) is None,
        },
{
    match sanitize(remove_extension(path)) {
        Some(name) => {
            if name.as_str().unicode_len() > 0 {
                Some(name)
            } else {
                None
            }
        },
        None => None,
    }
}

/// The name of a table that no file gave a name to.
pub fn fresh_table_name(n: u128) -> (r: String)
    ensures
        r@ == fresh_name(n),
{
    let mut bytes: Vec<u8> = Vec::new();
    let mut i: usize = 0;
    while i < 16
        invariant
            i <= 16,
            bytes@.len() == i,
            forall|j: int| 0 <= j < i ==> #[trigger] bytes@[j] == be_bytes(n)[j],
        decreases 16 - i,
    {
        let shift: u128 = (8 * (15 - i)) as u128;
        let b: u128 = (n >> shift) & 0xff;
        assert(b < 256) by (bit_vector)
            requires
                b == (n >> shift) & 0xff,
        ;
        bytes.push(b as u8);
        i += 1;
    }
    assert(bytes@ =~= be_bytes(n));
    let mut out = String::new();
    out.push('t');
    push_hex(&mut out, bytes.as_slice());
    out
}

/// The name of the table that holds the file at `path`, with `n` at hand
/// for a file whose path gives no name.
pub fn table_name(path: &str, n: u128) -> (r: String)
    ensures
        r@ == table_name_spec(path@, n),
        r@.len() > 0,
{
    match derived_table_name(path) {
        Some(name) => name,
        None => fresh_table_name(n),
    }
}

} // verus!
