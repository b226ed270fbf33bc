//! Paths: how the text that the host gives for a location is cut into the
//! names that lead there.
//!
//! One grammar holds for every verb.  A path is a run of names with `/`
//! between them; separators at either end, and separators that follow one
//! another, stand for nothing.  The empty path, like `/`, names the root.

use vstd::prelude::*;

verus! {

/// The character that stands between the names of a path.
pub open spec fn separator() -> char {
    '/'
}

/// Whether `name` can be one name of a path: it has at least one character
/// and none of them is the separator.
pub open spec fn is_segment(name: Seq<char>) -> bool {
    name.len() > 0 && forall|i: int| 0 <= i < name.len() ==> name[i] != separator()
}

/// How many characters stand at the start of `text` before its first
/// separator, or before its end if it has none.
pub open spec fn run_length(text: Seq<char>) -> nat
    decreases text.len(),
{
    if text.len() == 0 || text[0] == separator() {
        0
    } else {
        1 + run_length(text.drop_first())
    }
}

/// The names of the path `text`, in order: its longest runs of characters
/// other than the separator.
pub open spec fn split_path(text: Seq<char>) -> Seq<Seq<char>>
    decreases text.len(),
{
    if text.len() == 0 {
        Seq::empty()
    } else if text[0] == separator() {
        split_path(text.drop_first())
    } else {
        proof {
            lemma_run_length_bounds(text);
        }
        let run = run_length(text) as int;
        seq![text.take(run)] + split_path(text.skip(run))
    }
}

/// The path that is written for the names `names`: the names with one
/// separator between each two.
pub open spec fn join_path(names: Seq<Seq<char>>) -> Seq<char>
    decreases names.len(),
{
    if names.len() == 0 {
        Seq::empty()
    } else if names.len() == 1 {
        names[0]
    } else {
        names[0] + seq![separator()] + join_path(names.drop_first())
    }
}

/// A run ends within the text, and is not empty where the text starts with
/// a character other than the separator.
pub proof fn lemma_run_length_bounds(text: Seq<char>)
    ensures
        run_length(text) <= text.len(),
        text.len() > 0 && text[0] != separator() ==> run_length(text) > 0,
    decreases text.len(),
{
    if text.len() > 0 && text[0] != separator() {
        lemma_run_length_bounds(text.drop_first());
    }
}

/// The run at the start of `text` is `end` characters long if none of the
/// first `end` characters is the separator and the text ends or has a
/// separator right after them.
proof fn lemma_run_length_is(text: Seq<char>, end: int)
    requires
        0 <= end <= text.len(),
        forall|i: int| 0 <= i < end ==> text[i] != separator(),
        end < text.len() ==> text[end] == separator(),
    ensures
        run_length(text) == end,
    decreases end,
{
    if end > 0 {
        lemma_run_length_is(text.drop_first(), end - 1);
    }
}

/// The run at the start of `text` holds no separator, and what follows it,
/// if anything, starts with one.
proof fn lemma_run_is_clean(text: Seq<char>)
    ensures
        forall|i: int| 0 <= i < run_length(text) ==> text[i] != separator(),
        run_length(text) < text.len() ==> text[run_length(text) as int] == separator(),
    decreases text.len(),
{
    if text.len() > 0 && text[0] != separator() {
        let rest = text.drop_first();
        lemma_run_is_clean(rest);
        lemma_run_length_bounds(rest);
        assert forall|i: int| 0 <= i < run_length(text) implies text[i] != separator() by {
            if i > 0 {
                assert(text[i] == rest[i - 1]);
            }
        }
        if run_length(text) < text.len() {
            assert(text[run_length(text) as int] == rest[run_length(rest) as int]);
        }
    }
}

/// Every name that `split_path` gives is a name: not empty, and free of
/// separators.
pub proof fn lemma_split_gives_segments(text: Seq<char>)
    ensures
        forall|k: int| 0 <= k < split_path(text).len() ==> is_segment(#[trigger] split_path(text)[k]),
    decreases text.len(),
{
    if text.len() == 0 {
        assert(split_path(text).len() == 0);
    } else if text[0] == separator() {
        lemma_split_gives_segments(text.drop_first());
        assert(split_path(text) == split_path(text.drop_first()));
    } else {
        lemma_run_length_bounds(text);
        lemma_run_is_clean(text);
        let run = run_length(text) as int;
        let rest = split_path(text.skip(run));
        lemma_split_gives_segments(text.skip(run));
        assert(is_segment(text.take(run)));
        assert(split_path(text) == seq![text.take(run)] + rest);
        assert forall|k: int| 0 <= k < split_path(text).len() implies is_segment(
            #[trigger] split_path(text)[k],
        ) by {
            if k > 0 {
                assert(split_path(text)[k] == rest[k - 1]);
            } else {
                assert(split_path(text)[0] == text.take(run));
            }
        }
    }
}

/// A text without separators is its own single name, or no name at all if
/// it is empty.
proof fn lemma_split_of_segment(name: Seq<char>)
    requires
        is_segment(name),
    ensures
        split_path(name) == seq![name],
{
    lemma_run_length_is(name, name.len() as int);
    let run = run_length(name) as int;
    assert(name.take(run) =~= name);
    assert(name.skip(run).len() == 0);
    assert(split_path(name.skip(run)) =~= Seq::<Seq<char>>::empty());
    assert(split_path(name) =~= seq![name]);
}

/// A separator cuts a path in two: the names of `left`, a separator and
/// `right` are the names of `left` followed by the names of `right`.  So a
/// separator at either end, or one that follows another, adds no name.
pub proof fn lemma_split_at_separator(left: Seq<char>, right: Seq<char>)
    ensures
        split_path(left + seq![separator()] + right) == split_path(left) + split_path(right),
    decreases left.len(),
{
    let whole = left + seq![separator()] + right;
    if left.len() == 0 {
        assert(whole.drop_first() =~= right);
        assert(split_path(left) =~= Seq::<Seq<char>>::empty());
        assert(split_path(whole) =~= split_path(left) + split_path(right));
    } else if left[0] == separator() {
        assert(whole.drop_first() =~= left.drop_first() + seq![separator()] + right);
        lemma_split_at_separator(left.drop_first(), right);
    } else {
        lemma_run_length_bounds(left);
        lemma_run_is_clean(left);
        let run = run_length(left) as int;
        assert(run_length(whole) == run) by {
            assert forall|i: int| 0 <= i < run implies whole[i] != separator() by {
                assert(whole[i] == left[i]);
            }
            if run < left.len() {
                assert(whole[run] == left[run]);
            } else {
                assert(whole[run] == separator());
            }
            lemma_run_length_is(whole, run);
        }
        assert(whole.take(run) =~= left.take(run));
        if run < left.len() {
            assert(whole.skip(run) =~= left.skip(run) + seq![separator()] + right);
            lemma_split_at_separator(left.skip(run), right);
            assert(split_path(whole) =~= split_path(left) + split_path(right));
        } else {
            assert(left.skip(run).len() == 0);
            assert(split_path(left.skip(run)) =~= Seq::<Seq<char>>::empty());
            let tail = whole.skip(run);
            assert(tail[0] == separator());
            assert(tail.drop_first() =~= right);
            assert(split_path(tail) == split_path(right));
            assert(split_path(whole) =~= split_path(left) + split_path(right));
        }
    }
}

/// Cutting is the inverse of writing: the path written for a sequence of
/// names is cut into exactly those names.
pub proof fn lemma_split_inverts_join(names: Seq<Seq<char>>)
    requires
        forall|k: int| 0 <= k < names.len() ==> is_segment(#[trigger] names[k]),
    ensures
        split_path(join_path(names)) == names,
    decreases names.len(),
{
    if names.len() == 0 {
        assert(split_path(join_path(names)) =~= names);
    } else if names.len() == 1 {
        lemma_split_of_segment(names[0]);
        assert(split_path(join_path(names)) =~= names);
    } else {
        let rest = names.drop_first();
        assert forall|k: int| 0 <= k < rest.len() implies is_segment(#[trigger] rest[k]) by {
            assert(rest[k] == names[k + 1]);
        }
        lemma_split_inverts_join(rest);
        lemma_split_at_separator(names[0], join_path(rest));
        lemma_split_of_segment(names[0]);
        assert(split_path(join_path(names)) =~= names);
    }
}

/// The characters of `text`, one by one.
fn chars_of(text: &str) -> (chars: Vec<char>)
    ensures
        chars@ == text@,
{
    let mut chars: Vec<char> = Vec::new();
    for c in it: text.chars()
        invariant
            it.seq() == text@,
            chars@ == it.seq().take(it.index()),
    {
        chars.push(c);
        assert(it.seq().take(it.index() + 1) =~= it.seq().take(it.index()).push(c));
    }
    assert(chars@ =~= text@);
    chars
}

/// The mathematical value of a sequence of names.
pub open spec fn names_model(names: Seq<String>) -> Seq<Seq<char>> {
    Seq::new(names.len(), |k: int| names[k]@)
}

/// Cuts the path `path` into its names.
pub fn parse_path(path: &str) -> (names: Vec<String>)
    ensures
        names_model(names@) == split_path(path@),
{
    let chars = chars_of(path);
    let end: usize = chars.len();
    let mut names: Vec<String> = Vec::new();
    let mut at: usize = 0;
    assert(path@.skip(0) =~= path@);
    assert(names_model(names@) =~= Seq::<Seq<char>>::empty());
    while at < end
        invariant
            chars@ == path@,
            end == chars@.len(),
            at <= end,
            split_path(path@) == names_model(names@) + split_path(path@.skip(at as int)),
        decreases end - at,
    {
        let ghost rest = path@.skip(at as int);
        if chars[at] == '/' {
            assert(rest.drop_first() =~= path@.skip(at + 1));
            at += 1;
        } else {
            let mut stop: usize = at + 1;
            while stop < end && chars[stop] != '/'
                invariant
                    chars@ == path@,
                    end == chars@.len(),
                    at < stop <= end,
                    forall|k: int| at <= k < stop ==> chars@[k] != separator(),
                decreases end - stop,
            {
                stop += 1;
            }
            proof {
                lemma_run_length_is(rest, stop - at);
                assert(rest.take(stop - at) =~= path@.subrange(at as int, stop as int));
                assert(rest.skip(stop - at) =~= path@.skip(stop as int));
            }
            let name = path.substring_char(at, stop).to_owned();
            let ghost before = names@;
            names.push(name);
            assert(names_model(names@) =~= names_model(before) + seq![name@]);
            at = stop;
        }
    }
    assert(path@.skip(end as int).len() == 0);
    assert(names_model(names@) + split_path(path@.skip(end as int)) =~= names_model(names@));
    names
}

} // verus!
