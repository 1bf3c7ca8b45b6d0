//! Glob patterns over tool names: `*` stands for any run of characters and
//! `?` for exactly one; every other character stands for itself.

use vstd::prelude::*;

use crate::text::characters;

verus! {

/// Whether a name matches a glob pattern.
pub open spec fn glob_matches(pattern: Seq<char>, name: Seq<char>) -> bool
    decreases pattern.len(), name.len(),
{
    if pattern.len() == 0 {
        name.len() == 0
    } else if pattern[0] == '*' {
        ||| glob_matches(pattern.drop_first(), name)
        ||| name.len() > 0 && glob_matches(pattern, name.drop_first())
    } else {
        &&& name.len() > 0
        &&& pattern[0] == '?' || pattern[0] == name[0]
        &&& glob_matches(pattern.drop_first(), name.drop_first())
    }
}

/// Entry `k` of `row` tells whether the last `k` characters of the name match
/// the pattern from position `from` on.
spec fn row_holds(row: Seq<bool>, pattern: Seq<char>, name: Seq<char>, from: int) -> bool {
    forall|k: int|
        0 <= k < row.len() ==> (#[trigger] row[k]) == glob_matches(
            pattern.skip(from),
            name.skip(name.len() - k),
        )
}

/// The row of the empty pattern: only the empty rest of the name matches.
fn empty_pattern_row(pattern: &Vec<char>, name: &Vec<char>) -> (row: Vec<bool>)
    ensures
        row@.len() == name@.len() + 1,
        row_holds(row@, pattern@, name@, pattern@.len() as int),
{
    let mut row: Vec<bool> = Vec::new();
    row.push(true);
    let mut k: usize = 0;
    while k < name.len()
        invariant
            k <= name@.len(),
            row@.len() == k + 1,
            row_holds(row@, pattern@, name@, pattern@.len() as int),
        decreases name@.len() - k,
    {
        row.push(false);
        k = k + 1;
    }
    row
}

/// The row of the pattern from position `from` on, given the next one.
fn next_row(pattern: &Vec<char>, name: &Vec<char>, from: usize, below: &Vec<bool>) -> (row: Vec<
    bool,
>)
    requires
        from < pattern@.len(),
        below@.len() == name@.len() + 1,
        row_holds(below@, pattern@, name@, from + 1),
    ensures
        row@.len() == name@.len() + 1,
        row_holds(row@, pattern@, name@, from as int),
{
    let symbol = pattern[from];
    let ghost here = pattern@.skip(from as int);
    assert(here.drop_first() =~= pattern@.skip(from + 1));
    let mut row: Vec<bool> = Vec::new();
    row.push(symbol == '*' && below[0]);
    assert(name@.skip(name@.len() as int).len() == 0);
    let mut k: usize = 0;
    while k < name.len()
        invariant
            from < pattern@.len(),
            symbol == pattern@[from as int],
            here == pattern@.skip(from as int),
            here.drop_first() == pattern@.skip(from + 1),
            k <= name@.len(),
            below@.len() == name@.len() + 1,
            row_holds(below@, pattern@, name@, from + 1),
            row@.len() == k + 1,
            row_holds(row@, pattern@, name@, from as int),
        decreases name@.len() - k,
    {
        let letter = name[name.len() - 1 - k];
        let matched = if symbol == '*' {
            below[k + 1] || row[k]
        } else {
            (symbol == '?' || symbol == letter) && below[k]
        };
        proof {
            let rest = name@.skip(name@.len() - (k + 1));
            assert(rest.drop_first() =~= name@.skip(name@.len() - k));
            assert(rest[0] == letter);
        }
        row.push(matched);
        k = k + 1;
    }
    row
}

/// Whether `name` matches the glob `pattern`.
pub fn glob_match(pattern: &str, name: &str) -> (matched: bool)
    ensures
        matched == glob_matches(pattern@, name@),
{
    let pattern = characters(pattern);
    let name = characters(name);
    let mut row = empty_pattern_row(&pattern, &name);
    let mut from: usize = pattern.len();
    while from > 0
        invariant
            from <= pattern@.len(),
            row@.len() == name@.len() + 1,
            row_holds(row@, pattern@, name@, from as int),
        decreases from,
    {
        from = from - 1;
        row = next_row(&pattern, &name, from, &row);
    }
    assert(pattern@.skip(0) =~= pattern@);
    assert(name@.skip(0) =~= name@);
    row[name.len()]
}

/// A `*` matches every name.
pub proof fn star_matches_every_name(name: Seq<char>)
    ensures
        glob_matches(seq!['*'], name),
    decreases name.len(),
{
    if name.len() == 0 {
        assert(seq!['*'].drop_first() =~= Seq::<char>::empty());
        assert(glob_matches(seq!['*'].drop_first(), name));
    } else {
        star_matches_every_name(name.drop_first());
    }
}

/// A `?` matches the names of one character.
pub proof fn question_mark_matches_one_character(name: Seq<char>)
    ensures
        glob_matches(seq!['?'], name) <==> name.len() == 1,
{
    assert(seq!['?'].drop_first() =~= Seq::<char>::empty());
    if name.len() > 0 {
        assert(glob_matches(seq!['?'], name) == glob_matches(
            seq!['?'].drop_first(),
            name.drop_first(),
        ));
    }
}

/// A pattern without `*` and `?` matches the name that it spells, and no other.
pub proof fn plain_pattern_matches_itself(pattern: Seq<char>, name: Seq<char>)
    requires
        !pattern.contains('*'),
        !pattern.contains('?'),
    ensures
        glob_matches(pattern, name) <==> name == pattern,
    decreases pattern.len(),
{
    if pattern.len() == 0 {
        assert(name.len() == 0 <==> name =~= pattern);
    } else {
        assert(pattern.contains(pattern[0]));
        let rest = pattern.drop_first();
        assert forall|c: char| rest.contains(c) implies pattern.contains(c) by {
            let i = choose|i: int| 0 <= i < rest.len() && rest[i] == c;
            assert(pattern[i + 1] == c);
        }
        if name.len() > 0 {
            plain_pattern_matches_itself(rest, name.drop_first());
            if name[0] == pattern[0] && name.drop_first() == rest {
                assert(name =~= seq![name[0]] + name.drop_first());
                assert(pattern =~= seq![pattern[0]] + rest);
            }
        }
    }
}

/// One pattern behind another matches the names that fall into a part for the
/// first and a part for the second.
pub proof fn patterns_join(first: Seq<char>, second: Seq<char>, name: Seq<char>)
    ensures
        glob_matches(first + second, name) <==> exists|k: int|
            0 <= k <= name.len() && glob_matches(first, #[trigger] name.take(k)) && glob_matches(
                second,
                name.skip(k),
            ),
    decreases first.len(), name.len(),
{
    let whole = first + second;
    if first.len() == 0 {
        assert(whole =~= second);
        assert(name.skip(0) =~= name);
        assert(name.take(0).len() == 0);
    } else {
        let rest = first.drop_first();
        assert(whole.drop_first() =~= rest + second);
        assert(whole[0] == first[0]);
        patterns_join(rest, second, name);
        if name.len() > 0 {
            let tail = name.drop_first();
            patterns_join(rest, second, tail);
            if first[0] == '*' {
                patterns_join(first, second, tail);
            }
            assert forall|k: int| 0 <= k <= tail.len() implies name.take(k + 1).drop_first()
                == #[trigger] tail.take(k) && name.skip(k + 1) == tail.skip(k) by {
                assert(name.take(k + 1).drop_first() =~= tail.take(k));
                assert(name.skip(k + 1) =~= tail.skip(k));
            }
        }
        if glob_matches(whole, name) {
            if first[0] == '*' {
                if glob_matches(rest + second, name) {
                    let k = choose|k: int|
                        0 <= k <= name.len() && glob_matches(rest, #[trigger] name.take(k))
                            && glob_matches(second, name.skip(k));
                    assert(glob_matches(first, name.take(k)));
                } else {
                    let tail = name.drop_first();
                    let k = choose|k: int|
                        0 <= k <= tail.len() && glob_matches(first, #[trigger] tail.take(k))
                            && glob_matches(second, tail.skip(k));
                    assert(name.take(k + 1).drop_first() == tail.take(k));
                    assert(glob_matches(first, name.take(k + 1)));
                }
            } else {
                let tail = name.drop_first();
                let k = choose|k: int|
                    0 <= k <= tail.len() && glob_matches(rest, #[trigger] tail.take(k))
                        && glob_matches(second, tail.skip(k));
                assert(name.take(k + 1).drop_first() == tail.take(k));
                assert(name.take(k + 1)[0] == name[0]);
                assert(glob_matches(first, name.take(k + 1)));
            }
        }
        if exists|k: int|
            0 <= k <= name.len() && glob_matches(first, #[trigger] name.take(k)) && glob_matches(
                second,
                name.skip(k),
            ) {
            let k = choose|k: int|
                0 <= k <= name.len() && glob_matches(first, #[trigger] name.take(k))
                    && glob_matches(second, name.skip(k));
            if first[0] == '*' && glob_matches(rest, name.take(k)) {
                assert(glob_matches(rest + second, name));
            } else {
                assert(k > 0);
                let tail = name.drop_first();
                assert(name.take(k).drop_first() == tail.take(k - 1));
                assert(name.take(k)[0] == name[0]);
            }
        }
    }
}

/// A plain text with `*` behind it matches the names that begin with the text.
pub proof fn prefix_pattern_matches_beginnings(prefix: Seq<char>, name: Seq<char>)
    requires
        !prefix.contains('*'),
        !prefix.contains('?'),
    ensures
        glob_matches(prefix.push('*'), name) <==> prefix.is_prefix_of(name),
{
    assert(prefix.push('*') =~= prefix + seq!['*']);
    patterns_join(prefix, seq!['*'], name);
    if prefix.is_prefix_of(name) {
        let k = prefix.len() as int;
        assert(name.take(k) =~= prefix);
        plain_pattern_matches_itself(prefix, name.take(k));
        star_matches_every_name(name.skip(k));
    }
    if glob_matches(prefix.push('*'), name) {
        let k = choose|k: int|
            0 <= k <= name.len() && glob_matches(prefix, #[trigger] name.take(k)) && glob_matches(
                seq!['*'],
                name.skip(k),
            );
        plain_pattern_matches_itself(prefix, name.take(k));
    }
}

}
