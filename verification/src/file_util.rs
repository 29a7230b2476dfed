//! The line filter: which lines of a load order listing name a plugin.

use crate::text::{
    lemma_trim_end_keeps_first, lemma_trimmed_is_idempotent, lines_of, trim_line, trim_start,
    trimmed,
};
use vstd::prelude::*;

verus! {

/// Whether a trimmed line is a comment: it starts with `#` or with `/`.
pub open spec fn is_comment(line: Seq<char>) -> bool {
    line.len() > 0 && (line.first() == '#' || line.first() == '/')
}

/// Whether a trimmed line names a plugin: it is neither empty nor a comment.
pub open spec fn is_plugin_name(line: Seq<char>) -> bool {
    line.len() > 0 && !is_comment(line)
}

/// The plugin names among `lines`: every line trimmed, then the empty lines
/// and the comments left out. The order of the lines is kept, and a name
/// that occurs twice is kept twice.
pub open spec fn plugin_names(lines: Seq<Seq<char>>) -> Seq<Seq<char>> {
    lines.map_values(|line: Seq<char>| trimmed(line)).filter(
        |line: Seq<char>| is_plugin_name(line),
    )
}

/// Whether `names` can be a load order: every name is trimmed, and none is
/// empty or a comment.
pub open spec fn is_load_order(names: Seq<Seq<char>>) -> bool {
    forall|i: int|
        0 <= i < names.len() ==> is_plugin_name(#[trigger] names[i]) && trimmed(names[i])
            == names[i]
}

/// One more line at the end adds its trimmed form to the plugin names if
/// that is a plugin name, and nothing otherwise.
pub proof fn lemma_plugin_names_push(lines: Seq<Seq<char>>, line: Seq<char>)
    ensures
        plugin_names(lines.push(line)) == if is_plugin_name(trimmed(line)) {
            plugin_names(lines).push(trimmed(line))
        } else {
            plugin_names(lines)
        },
{
    let trim = |line: Seq<char>| trimmed(line);
    let keep = |line: Seq<char>| is_plugin_name(line);
    let all = lines.push(line).map_values(trim);
    assert(all.drop_last() =~= lines.map_values(trim));
    assert(all.last() == trimmed(line));
    reveal(Seq::filter);
    assert(all.filter(keep) == if keep(all.last()) {
        all.drop_last().filter(keep).push(all.last())
    } else {
        all.drop_last().filter(keep)
    });
}

/// The plugin names of two listings, one after the other, are the plugin
/// names of the first followed by those of the second.
pub proof fn lemma_plugin_names_concat(first: Seq<Seq<char>>, second: Seq<Seq<char>>)
    ensures
        plugin_names(first + second) == plugin_names(first) + plugin_names(second),
{
    let trim = |line: Seq<char>| trimmed(line);
    let keep = |line: Seq<char>| is_plugin_name(line);
    assert((first + second).map_values(trim) =~= first.map_values(trim) + second.map_values(trim));
    Seq::filter_distributes_over_add(first.map_values(trim), second.map_values(trim), keep);
}

/// The plugin names of a listing are a load order: every one of them is
/// trimmed, and none is empty or a comment.
pub proof fn lemma_plugin_names_are_load_order(lines: Seq<Seq<char>>)
    ensures
        is_load_order(plugin_names(lines)),
    decreases lines.len(),
{
    if lines.len() == 0 {
        reveal(Seq::filter);
        assert(plugin_names(lines) =~= Seq::empty());
    } else {
        lemma_plugin_names_are_load_order(lines.drop_last());
        lemma_plugin_names_push(lines.drop_last(), lines.last());
        lemma_trimmed_is_idempotent(lines.last());
        assert(lines.drop_last().push(lines.last()) =~= lines);
    }
}

/// A listing of blank lines and comments only has no plugin names.
pub proof fn lemma_no_names_without_plugin_lines(lines: Seq<Seq<char>>)
    requires
        forall|i: int| 0 <= i < lines.len() ==> !is_plugin_name(trimmed(#[trigger] lines[i])),
    ensures
        plugin_names(lines) == Seq::<Seq<char>>::empty(),
    decreases lines.len(),
{
    if lines.len() == 0 {
        reveal(Seq::filter);
        assert(plugin_names(lines) =~= Seq::empty());
    } else {
        lemma_no_names_without_plugin_lines(lines.drop_last());
        lemma_plugin_names_push(lines.drop_last(), lines.last());
        assert(lines.drop_last().push(lines.last()) =~= lines);
    }
}

/// The empty text has no plugin names.
pub proof fn lemma_no_names_in_empty_text()
    ensures
        plugin_names(lines_of(Seq::empty())) == Seq::<Seq<char>>::empty(),
{
    let lines = lines_of(Seq::empty());
    assert(lines.len() == 1 && lines[0] == Seq::<char>::empty());
    assert(trimmed(lines[0]) == Seq::<char>::empty());
    lemma_no_names_without_plugin_lines(lines);
}

/// A line that begins with `#` or `/` is a comment after trimming too.
pub proof fn lemma_marked_line_is_comment(line: Seq<char>)
    requires
        is_comment(line),
    ensures
        is_comment(trimmed(line)),
{
    assert(trim_start(line) == line);
    lemma_trim_end_keeps_first(line);
}

/// A comment is left out wherever it stands: the plugin names of a listing
/// are those of the listing without the comment line.
pub proof fn lemma_comment_is_excluded(lines: Seq<Seq<char>>, at: int)
    requires
        0 <= at < lines.len(),
        is_comment(trimmed(lines[at])),
    ensures
        plugin_names(lines) == plugin_names(lines.remove(at)),
{
    let before = lines.take(at);
    let after = lines.skip(at + 1);
    assert(lines =~= before.push(lines[at]) + after);
    assert(lines.remove(at) =~= before + after);
    lemma_plugin_names_concat(before.push(lines[at]), after);
    lemma_plugin_names_concat(before, after);
    lemma_plugin_names_push(before, lines[at]);
}

/// Tests whether a trimmed line names a plugin.
pub fn names_plugin(line: &str) -> (b: bool)
    ensures
        b == is_plugin_name(line@),
{
    if line.is_empty() {
        false
    } else {
        let first = line.get_char(0);
        first != '#' && first != '/'
    }
}

/// Trims every line and keeps those that name a plugin, in their order.
pub fn filter_lines(lines: &[String]) -> (names: Vec<String>)
    ensures
        names.deep_view() == plugin_names(lines.deep_view()),
{
    let mut names: Vec<String> = Vec::new();
    let mut i: usize = 0;
    assert(lines.deep_view().take(0) =~= Seq::empty());
    assert(plugin_names(Seq::empty()) =~= Seq::empty()) by {
        reveal(Seq::filter);
    }
    while i < lines.len()
        invariant
            i <= lines.len(),
            names.deep_view() == plugin_names(lines.deep_view().take(i as int)),
        decreases lines.len() - i,
    {
        let line = trim_line(lines[i].as_str());
        proof {
            let seen = lines.deep_view().take(i as int);
            lemma_plugin_names_push(seen, lines[i as int]@);
            assert(lines.deep_view().take(i + 1) =~= seen.push(lines[i as int]@));
        }
        if names_plugin(line.as_str()) {
            names.push(line);
        }
        i += 1;
    }
    assert(lines.deep_view().take(lines.len() as int) =~= lines.deep_view());
    names
}

/// What clearing a companion file writes: the empty text where the file
/// exists, and nothing where it does not.
pub fn clear_file(exists: bool) -> (content: Option<String>)
    ensures
        (content is Some) == exists,
        content matches Some(text) ==> text@ == Seq::<char>::empty(),
{
    if exists {
        Some(String::new())
    } else {
        None
    }
}

} // verus!
