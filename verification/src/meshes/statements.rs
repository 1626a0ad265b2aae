//! The statements of a model file, and those that the parser has no implementation of.

use crate::text::{chars_of, find_char, find_word, string_of, str_eq};
#[allow(unused_imports)]
use crate::text::{
    after_first_word, first_word, is_space, other_than, run_length, run_length_is,
    run_length_properties, space, trim_start, visible,
};
use vstd::prelude::*;

verus! {

/// A line of a model file without its line break and its comment.
pub open spec fn line_code(line: Seq<char>, terminated: bool) -> Seq<char> {
    let bare = if terminated && line.len() > 0 && line.last() == '\r' {
        line.drop_last()
    } else {
        line
    };
    bare.take(run_length(bare, other_than('#')) as int)
}

/// The length of the first line of a text.
pub open spec fn line_length(text: Seq<char>) -> int {
    run_length(text, other_than('\n')) as int
}

/// The first line of a text, without its line break and its comment.
pub open spec fn head(text: Seq<char>) -> Seq<char> {
    line_code(text.take(line_length(text)), line_length(text) < text.len())
}

/// What follows the first line of a text.
pub open spec fn tail(text: Seq<char>) -> Seq<char> {
    if line_length(text) < text.len() {
        text.skip(line_length(text) + 1)
    } else {
        seq![]
    }
}

/// The statement goes on in the next line.
pub open spec fn continues(code: Seq<char>) -> bool {
    code.len() > 0 && code.last() == '\\'
}

/// The first statement of a text, whose lines are put together, and what follows it; nothing where
/// the text has no line, or ends where a statement should go on.
pub open spec fn statement(text: Seq<char>) -> Option<(Seq<char>, Seq<char>)>
    decreases text.len(),
{
    if text.len() == 0 {
        None
    } else if !continues(head(text)) {
        Some((head(text), tail(text)))
    } else {
        match statement(tail(text)) {
            Some((more, rest)) => Some((head(text).drop_last() + seq![' '] + more, rest)),
            None => None,
        }
    }
}

/// The words of a text.
pub open spec fn words(text: Seq<char>) -> Seq<Seq<char>>
    decreases text.len(),
{
    proof {
        word_bounds(text);
    }
    if first_word(text).len() == 0 {
        seq![]
    } else {
        seq![first_word(text)] + words(after_first_word(text))
    }
}

/// A word is visible, and what follows it is shorter than the text.
pub proof fn word_bounds(text: Seq<char>)
    ensures
        first_word(text).len() > 0 ==> after_first_word(text).len() < text.len(),
        forall|i: int| 0 <= i < first_word(text).len() ==> !is_space(#[trigger] first_word(text)[i]),
{
    let trimmed = trim_start(text);
    run_length_properties(text, space());
    run_length_properties(trimmed, visible());
    assert forall|i: int| 0 <= i < first_word(text).len() implies !is_space(
        #[trigger] first_word(text)[i],
    ) by {
        assert(visible()(trimmed[i]));
    }
}

/// The words of a text are visible.
proof fn words_visible(text: Seq<char>, w: int, i: int)
    requires
        0 <= w < words(text).len(),
        0 <= i < words(text)[w].len(),
    ensures
        !is_space(words(text)[w][i]),
    decreases text.len(),
{
    word_bounds(text);
    if w > 0 {
        let rest = after_first_word(text);
        assert(words(text)[w] == words(rest)[w - 1]);
        words_visible(rest, w - 1, i);
    }
}

/// The keywords that the parser has no implementation of, whatever follows them.
#[verifier::opaque]
pub open spec fn is_unsupported(word: Seq<char>) -> bool {
    ||| word == "bmat"@
    ||| word == "step"@
    ||| word == "curv"@
    ||| word == "curv2"@
    ||| word == "surf"@
    ||| word == "parm"@
    ||| word == "trim"@
    ||| word == "hole"@
    ||| word == "scrv"@
    ||| word == "sp"@
    ||| word == "end"@
    ||| word == "con"@
    ||| word == "bevel"@
    ||| word == "c_interp"@
    ||| word == "d_interp"@
    ||| word == "lod"@
    ||| word == "shadow_obj"@
    ||| word == "trace_obj"@
    ||| word == "ctech"@
    ||| word == "stech"@
}

/// A type of curve that the parser knows, and has no implementation of.
#[verifier::opaque]
pub open spec fn is_curve_type(word: Seq<char>) -> bool {
    ||| word == "bmatrix"@
    ||| word == "bezier"@
    ||| word == "bspline"@
    ||| word == "cardinal"@
    ||| word == "taylor"@
}

/// The words state a type of curve, which may be rational.
pub open spec fn states_curve_type(words: Seq<Seq<char>>) -> bool {
    &&& words.len() > 0
    &&& words[0] == "cstype"@
    &&& {
        ||| words.len() == 2 && is_curve_type(words[1])
        ||| words.len() == 3 && words[1] == "rat"@ && is_curve_type(words[2])
    }
}

/// The words state one degree or two.
pub open spec fn states_degree(words: Seq<Seq<char>>) -> bool {
    (words.len() == 2 || words.len() == 3) && words[0] == "deg"@
}

/// The parser may have no implementation of a statement with these words.
pub open spec fn unimplemented_words(words: Seq<Seq<char>>) -> bool {
    ||| words.len() > 0 && is_unsupported(words[0])
    ||| states_curve_type(words)
    ||| states_degree(words)
}

/// What is left of a text from the first statement on of which the parser has no implementation.
pub open spec fn unsupported_rest(text: Seq<char>) -> Option<Seq<char>>
    decreases text.len(),
{
    proof {
        statement_shortens(text);
    }
    match statement(text) {
        Some((line, rest)) => if unimplemented_words(words(line)) {
            Some(text)
        } else {
            unsupported_rest(rest)
        },
        None => None,
    }
}

/// The parser has an implementation of all statements of a model file.
pub open spec fn obj_supported(text: Seq<char>) -> bool {
    unsupported_rest(text) is None
}

/// What stands before the first statement of which the parser has no implementation.
pub open spec fn supported_part(text: Seq<char>) -> Seq<char> {
    match unsupported_rest(text) {
        Some(rest) => text.take(text.len() - rest.len()),
        None => text,
    }
}

/// The words of the first statement of which the parser has no implementation.
pub open spec fn unsupported_words(text: Seq<char>) -> Seq<Seq<char>> {
    words((statement(unsupported_rest(text)->0)->0).0)
}

/// A text that states the degrees of a statement as a texture coordinate, which the parser reads in
/// the same way.
pub open spec fn degrees_text(words: Seq<Seq<char>>) -> Seq<char> {
    "vt "@ + words[1] + seq![' '] + (if words.len() == 3 {
        words[2] + seq![' ']
    } else {
        seq![]
    })
}

/// A statement takes up some of the text, and what follows it ends the text.
pub proof fn statement_shortens(text: Seq<char>)
    ensures
        statement(text) matches Some((_, rest)) ==> rest.len() < text.len() && rest == text.skip(
            text.len() - rest.len(),
        ),
    decreases text.len(),
{
    run_length_properties(text, other_than('\n'));
    if text.len() > 0 {
        let after = tail(text);
        assert(after =~= text.skip(text.len() - after.len()));
        if continues(head(text)) {
            statement_shortens(after);
            if let Some((_, rest)) = statement(after) {
                assert(rest =~= text.skip(text.len() - rest.len()));
            }
        }
    }
}

/// What follows a statement and stands at the end can be cut off without changing the statement.
proof fn statement_local(text: Seq<char>, cut: int)
    requires
        statement(text) matches Some((_, rest)) && 0 < cut <= rest.len(),
    ensures
        statement(text.take(text.len() - cut)) == Some(
            ((statement(text)->0).0, (statement(text)->0).1.take((statement(text)->0).1.len() - cut)),
        ),
    decreases text.len(),
{
    let short = text.take(text.len() - cut);
    let n = line_length(text);
    run_length_properties(text, other_than('\n'));
    statement_shortens(text);
    let after = tail(text);
    if continues(head(text)) {
        statement_shortens(after);
    }
    assert(after.len() >= cut);
    assert(n < text.len());
    assert(n + 1 <= short.len());
    run_length_is(short, other_than('\n'), n as nat);
    assert(short.take(n) =~= text.take(n));
    assert(tail(short) =~= after.take(after.len() - cut));
    assert(head(short) == head(text));
    if continues(head(text)) {
        statement_local(after, cut);
    }
}

/// What stands before the first statement without an implementation holds none.
pub proof fn part_is_supported(text: Seq<char>)
    ensures
        obj_supported(supported_part(text)),
        unsupported_rest(text) matches Some(rest) ==> 0 < rest.len() <= text.len() && rest
            == text.skip(text.len() - rest.len()),
    decreases text.len(),
{
    statement_shortens(text);
    if let Some((line, rest)) = statement(text) {
        if unimplemented_words(words(line)) {
            assert(text.skip(0) =~= text);
            assert(text.take(0).len() == 0);
        } else {
            part_is_supported(rest);
            if let Some(stop) = unsupported_rest(rest) {
                statement_local(text, stop.len() as int);
                assert(stop =~= text.skip(text.len() - stop.len()));
            }
        }
    }
}

/// The degrees of a statement can be read as a texture coordinate.
proof fn degrees_supported(line: Seq<char>)
    requires
        states_degree(words(line)),
    ensures
        obj_supported(degrees_text(words(line))),
{
    let all = words(line);
    let text = degrees_text(all);
    reveal_strlit("vt ");
    assert forall|i: int| 0 <= i < text.len() implies text[i] != '\n' by {
        let first = 3 + all[1].len();
        if 3 <= i < first {
            words_visible(line, 1, i - 3);
            assert(text[i] == all[1][i - 3]);
        } else if first < i && all.len() == 3 && i <= first + all[2].len() {
            words_visible(line, 2, i - first - 1);
            assert(text[i] == all[2][i - first - 1]);
        }
    }
    run_length_is(text, other_than('\n'), text.len());
    assert(text.take(text.len() as int) =~= text);
    let code = head(text);
    run_length_properties(text, other_than('#'));
    if run_length(text, other_than('#')) < 3 {
        assert(text[run_length(text, other_than('#')) as int] == '#');
    }
    assert(code.len() >= 3 && code[0] == 'v' && code[1] == 't' && code[2] == ' ');
    if let Some((found, rest)) = statement(text) {
        assert(!continues(code)) by {
            if continues(code) {
                assert(statement(tail(text)) is None);
            }
        }
        assert(found == code);
        run_length_is(code, space(), 0);
        assert(code.skip(0) =~= code);
        run_length_is(code, visible(), 2);
        assert(first_word(code) =~= seq!['v', 't']);
        assert(words(code)[0] == seq!['v', 't']);
        keywords_differ();
        assert(unsupported_rest(rest) is None);
    }
}

/// Texture coordinates and degrees are told from the other statements by their keywords.
proof fn keywords_differ()
    ensures
        !is_unsupported(seq!['v', 't']),
        seq!['v', 't'] != "cstype"@,
        seq!['v', 't'] != "deg"@,
        !is_unsupported("deg"@),
        "deg"@ != "cstype"@,
{
    reveal(is_unsupported);
    reveal_strlit("cstype");
    reveal_strlit("deg");
    reveal_strlit("bmat");
    reveal_strlit("step");
    reveal_strlit("curv");
    reveal_strlit("curv2");
    reveal_strlit("surf");
    reveal_strlit("parm");
    reveal_strlit("trim");
    reveal_strlit("hole");
    reveal_strlit("scrv");
    reveal_strlit("sp");
    reveal_strlit("end");
    reveal_strlit("con");
    reveal_strlit("bevel");
    reveal_strlit("c_interp");
    reveal_strlit("d_interp");
    reveal_strlit("lod");
    reveal_strlit("shadow_obj");
    reveal_strlit("trace_obj");
    reveal_strlit("ctech");
    reveal_strlit("stech");
    assert(seq!['v', 't'][0] != "sp"@[0]);
    let degree = "deg"@;
    assert(degree.len() == 3 && degree[0] == 'd');
    assert(degree != "end"@ && degree != "con"@ && degree != "lod"@) by {
        assert("end"@[0] == 'e' && "con"@[0] == 'c' && "lod"@[0] == 'l');
    }
}

fn word_is_unsupported(word: &str) -> (result: bool)
    ensures
        result == is_unsupported(word@),
{
    reveal(is_unsupported);
    str_eq(word, "bmat") || str_eq(word, "step") || str_eq(word, "curv") || str_eq(word, "curv2")
        || str_eq(word, "surf") || str_eq(word, "parm") || str_eq(word, "trim") || str_eq(
        word,
        "hole",
    ) || str_eq(word, "scrv") || str_eq(word, "sp") || str_eq(word, "end") || str_eq(word, "con")
        || str_eq(word, "bevel") || str_eq(word, "c_interp") || str_eq(word, "d_interp") || str_eq(
        word,
        "lod",
    ) || str_eq(word, "shadow_obj") || str_eq(word, "trace_obj") || str_eq(word, "ctech") || str_eq(
        word,
        "stech",
    )
}

fn word_is_curve_type(word: &str) -> (result: bool)
    ensures
        result == is_curve_type(word@),
{
    reveal(is_curve_type);
    str_eq(word, "bmatrix") || str_eq(word, "bezier") || str_eq(word, "bspline") || str_eq(
        word,
        "cardinal",
    ) || str_eq(word, "taylor")
}

/// Words as sequences of characters.
pub open spec fn word_views(words: Seq<String>) -> Seq<Seq<char>> {
    words.map_values(|w: String| w@)
}

/// The words of a text.
pub fn split_words(text: &Vec<char>) -> (found: Vec<String>)
    ensures
        word_views(found@) == words(text@),
{
    let mut found: Vec<String> = Vec::new();
    let mut start: usize = 0;
    assert(text@.subrange(0, text.len() as int) =~= text@);
    assert(word_views(found@) + words(text@) =~= words(text@));
    loop
        invariant
            start <= text.len(),
            word_views(found@) + words(text@.subrange(start as int, text.len() as int)) == words(
                text@,
            ),
        decreases text.len() - start,
    {
        let ghost rest = text@.subrange(start as int, text.len() as int);
        let (from, to) = find_word(text, start, text.len());
        if from == to {
            assert(first_word(rest).len() == 0);
            assert(word_views(found@) + words(rest) =~= word_views(found@));
            return found;
        }
        let ghost before = found@;
        found.push(string_of(text, from, to));
        proof {
            assert(first_word(rest).len() > 0);
            assert(word_views(found@) =~= word_views(before).push(first_word(rest)));
            let more = words(after_first_word(rest));
            assert(word_views(before) + (seq![first_word(rest)] + more) =~= word_views(found@)
                + more);
        }
        start = to;
    }
}

fn words_are_unimplemented(found: &Vec<String>) -> (result: bool)
    ensures
        result == unimplemented_words(word_views(found@)),
{
    let count: usize = found.len();
    if count == 0 {
        return false;
    }
    let ghost views = word_views(found@);
    assert(views.len() == count && views[0] == found@[0]@);
    if word_is_unsupported(found[0].as_str()) {
        return true;
    }
    if count == 2 {
        assert(views[1] == found@[1]@);
        return str_eq(found[0].as_str(), "deg") || (str_eq(found[0].as_str(), "cstype")
            && word_is_curve_type(found[1].as_str()));
    }
    if count == 3 {
        assert(views[1] == found@[1]@ && views[2] == found@[2]@);
        return str_eq(found[0].as_str(), "deg") || (str_eq(found[0].as_str(), "cstype") && str_eq(
            found[1].as_str(),
            "rat",
        ) && word_is_curve_type(found[2].as_str()));
    }
    false
}

/// `found` in front of what a statement still holds.
spec fn extended(
    found: Seq<char>,
    more: Option<(Seq<char>, Seq<char>)>,
) -> Option<(Seq<char>, Seq<char>)> {
    match more {
        Some((line, rest)) => Some((found + line, rest)),
        None => None,
    }
}

/// Reads the statement that starts at `from`, with the place behind it.
fn read_statement(chars: &Vec<char>, from: usize) -> (result: Option<(Vec<char>, usize)>)
    requires
        from <= chars.len(),
    ensures
        match result {
            Some((line, next)) => {
                &&& from < next <= chars.len()
                &&& statement(chars@.skip(from as int)) == Some((line@, chars@.skip(next as int)))
            },
            None => statement(chars@.skip(from as int)) is None,
        },
{
    let mut line: Vec<char> = Vec::new();
    let mut start: usize = from;
    let ghost whole = statement(chars@.skip(from as int));
    proof {
        if let Some((all, _)) = whole {
            assert(Seq::<char>::empty() + all =~= all);
        }
    }
    loop
        invariant
            from <= start <= chars.len(),
            whole == extended(line@, statement(chars@.skip(start as int))),
            whole == statement(chars@.skip(from as int)),
        decreases chars.len() - start,
    {
        if start == chars.len() {
            return None;
        }
        let ghost rest = chars@.skip(start as int);
        let end: usize = find_char(chars, start, '\n');
        let code_end: usize = code_bound(chars, start, end);
        let next: usize = if end < chars.len() {
            end + 1
        } else {
            end
        };
        proof {
            assert(line_length(rest) == end - start);
            assert(rest.take(end - start) =~= chars@.subrange(start as int, end as int));
            assert(head(rest) == chars@.subrange(start as int, code_end as int));
            assert(tail(rest) =~= chars@.skip(next as int));
        }
        let ghost before = line@;
        if code_end > start && chars[code_end - 1] == '\\' {
            append_chars(&mut line, chars, start, code_end - 1);
            line.push(' ');
            proof {
                assert(continues(head(rest)));
                assert(chars@.subrange(start as int, code_end - 1) =~= head(rest).drop_last());
                if let Some((more, _)) = statement(tail(rest)) {
                    assert(before + (head(rest).drop_last() + seq![' '] + more) =~= line@ + more);
                }
            }
            start = next;
        } else {
            append_chars(&mut line, chars, start, code_end);
            return Some((line, next));
        }
    }
}

/// The end of a line without its line break and its comment.
fn code_bound(chars: &Vec<char>, start: usize, end: usize) -> (code_end: usize)
    requires
        start <= end <= chars.len(),
        forall|i: int| start <= i < end ==> chars[i] != '\n',
    ensures
        start <= code_end <= end,
        chars@.subrange(start as int, code_end as int) == line_code(
            chars@.subrange(start as int, end as int),
            end < chars.len(),
        ),
{
    let ghost line = chars@.subrange(start as int, end as int);
    let bare_end: usize = if end < chars.len() && end > start && chars[end - 1] == '\r' {
        end - 1
    } else {
        end
    };
    let mut code_end: usize = find_char(chars, start, '#');
    if code_end > bare_end {
        code_end = bare_end;
    }
    proof {
        let bare = chars@.subrange(start as int, bare_end as int);
        if end < chars.len() && line.len() > 0 && line.last() == '\r' {
            assert(bare =~= line.drop_last());
        } else {
            assert(bare =~= line);
        }
        run_length_is(bare, other_than('#'), (code_end - start) as nat);
        assert(chars@.subrange(start as int, code_end as int) =~= line_code(
            line,
            end < chars.len(),
        ));
    }
    code_end
}

/// Appends the characters `from..to` of a text.
fn append_chars(line: &mut Vec<char>, chars: &Vec<char>, from: usize, to: usize)
    requires
        from <= to <= chars.len(),
    ensures
        final(line)@ == old(line)@ + chars@.subrange(from as int, to as int),
{
    let mut i: usize = from;
    assert(line@ =~= old(line)@ + chars@.subrange(from as int, from as int));
    while i < to
        invariant
            from <= i <= to <= chars.len(),
            line@ == old(line)@ + chars@.subrange(from as int, i as int),
        decreases to - i,
    {
        line.push(chars[i]);
        i += 1;
        assert(line@ =~= old(line)@ + chars@.subrange(from as int, i as int));
    }
}

/// A statement of which the parser has no implementation.
pub struct UnsupportedStatement {
    /// What stands before it.
    pub before: String,
    /// Its degrees as a texture coordinate, where it states degrees.
    pub degrees: Option<String>,
}

/// Finds the first statement of which the parser has no implementation.
pub fn find_unsupported(text: &str) -> (found: Option<UnsupportedStatement>)
    ensures
        match found {
            Some(statement) => {
                &&& !obj_supported(text@)
                &&& statement.before@ == supported_part(text@)
                &&& obj_supported(statement.before@)
                &&& match statement.degrees {
                    Some(degrees) => {
                        &&& states_degree(unsupported_words(text@))
                        &&& degrees@ == degrees_text(unsupported_words(text@))
                        &&& obj_supported(degrees@)
                    },
                    None => !states_degree(unsupported_words(text@)),
                }
            },
            None => obj_supported(text@),
        },
{
    let chars = chars_of(text);
    let mut start: usize = 0;
    assert(chars@.skip(0) =~= chars@);
    loop
        invariant
            chars@ == text@,
            start <= chars.len(),
            unsupported_rest(chars@.skip(start as int)) == unsupported_rest(text@),
        decreases chars.len() - start,
    {
        match read_statement(&chars, start) {
            Some((line, next)) => {
                let found = split_words(&line);
                if words_are_unimplemented(&found) {
                    let ghost views = words(line@);
                    proof {
                        part_is_supported(text@);
                        assert(unsupported_rest(text@) == Some(chars@.skip(start as int)));
                        assert(unsupported_words(text@) == views);
                        assert(chars@.subrange(0, start as int) =~= supported_part(text@));
                    }
                    let before = string_of(&chars, 0, start);
                    let degrees = if str_eq(found[0].as_str(), "deg") {
                        assert(views[0] == found@[0]@);
                        proof {
                            keywords_differ();
                            degrees_supported(line@);
                        }
                        Some(write_degrees(&found))
                    } else {
                        assert(views[0] == found@[0]@);
                        None
                    };
                    return Some(UnsupportedStatement { before, degrees });
                }
                start = next;
            },
            None => {
                return None;
            },
        }
    }
}

/// Writes degrees as a texture coordinate.
fn write_degrees(found: &Vec<String>) -> (text: String)
    requires
        states_degree(word_views(found@)),
    ensures
        text@ == degrees_text(word_views(found@)),
{
    let ghost views = word_views(found@);
    let mut text = "vt ".to_owned();
    assert(views[1] == found@[1]@);
    text.append(found[1].as_str());
    text.push(' ');
    assert(text@ =~= "vt "@ + views[1] + seq![' ']);
    if found.len() == 3 {
        assert(views[2] == found@[2]@);
        text.append(found[2].as_str());
        text.push(' ');
    }
    assert(text@ =~= degrees_text(views));
    text
}

/// Tests that the parser has an implementation of all statements of a model file.
pub fn supports_obj(text: &str) -> (supported: bool)
    ensures
        supported == obj_supported(text@),
{
    find_unsupported(text).is_none()
}

/// What meshes are made of is supported: positions, texture coordinates, normals, faces, groups,
/// objects, materials and libraries.
pub proof fn meshes_are_supported(words: Seq<Seq<char>>)
    requires
        words.len() > 0,
        words[0] == seq!['v'] || words[0] == seq!['v', 't'] || words[0] == seq!['v', 'n']
            || words[0] == seq!['f'] || words[0] == seq!['g'] || words[0] == seq!['o'] || words[0]
            == seq!['s'] || words[0] == seq!['u', 's', 'e', 'm', 't', 'l'] || words[0] == seq![
            'm',
            't',
            'l',
            'l',
            'i',
            'b',
        ],
    ensures
        !unimplemented_words(words),
{
    reveal(is_unsupported);
    reveal_strlit("bmat");
    reveal_strlit("step");
    reveal_strlit("curv");
    reveal_strlit("curv2");
    reveal_strlit("surf");
    reveal_strlit("parm");
    reveal_strlit("trim");
    reveal_strlit("hole");
    reveal_strlit("scrv");
    reveal_strlit("sp");
    reveal_strlit("end");
    reveal_strlit("con");
    reveal_strlit("bevel");
    reveal_strlit("c_interp");
    reveal_strlit("d_interp");
    reveal_strlit("lod");
    reveal_strlit("shadow_obj");
    reveal_strlit("trace_obj");
    reveal_strlit("ctech");
    reveal_strlit("stech");
    reveal_strlit("cstype");
    reveal_strlit("deg");
    let word = words[0];
    let (n, c) = (word.len(), word[0]);
    assert(n == 1 || n == 2 || n == 6);
    assert(n == 2 ==> c == 'v');
    assert(n == 6 ==> c == 'u' || c == 'm');
    assert("sp"@[0] == 's' && "cstype"@[0] == 'c');
    assert("bmat"@.len() == 4 && "step"@.len() == 4 && "curv"@.len() == 4 && "curv2"@.len() == 5);
    assert("surf"@.len() == 4 && "parm"@.len() == 4 && "trim"@.len() == 4 && "hole"@.len() == 4);
    assert("scrv"@.len() == 4 && "sp"@.len() == 2 && "end"@.len() == 3 && "con"@.len() == 3);
    assert("bevel"@.len() == 5 && "c_interp"@.len() == 8 && "d_interp"@.len() == 8);
    assert("lod"@.len() == 3 && "shadow_obj"@.len() == 10 && "trace_obj"@.len() == 9);
    assert("ctech"@.len() == 5 && "stech"@.len() == 5 && "deg"@.len() == 3);
}

/// A line is a statement, up to its comment; what follows the line break is left for later.
pub proof fn lines_are_statements(code: Seq<char>, comment: Seq<char>, rest: Seq<char>)
    requires
        !code.contains('\n'),
        !code.contains('#'),
        !code.contains('\r'),
        !comment.contains('\n'),
        code.len() > 0 ==> code.last() != '\\',
    ensures
        statement(code + seq!['\n'] + rest) == Some((code, rest)),
        statement(code + seq!['#'] + comment + seq!['\n'] + rest) == Some((code, rest)),
        statement(code + seq!['\r', '\n'] + rest) == Some((code, rest)),
{
    let plain = code + seq!['\n'] + rest;
    assert forall|i: int| 0 <= i < code.len() implies other_than('\n')(#[trigger] plain[i]) by {
        assert(code.contains(code[i]));
    }
    run_length_is(plain, other_than('\n'), code.len());
    assert(plain.take(code.len() as int) =~= code);
    assert(plain.skip(code.len() as int + 1) =~= rest);
    code_of_line(code, seq![], code);
    assert(head(plain) == code);
    assert(tail(plain) == rest);

    let line = code + seq!['#'] + comment;
    let noted = line + seq!['\n'] + rest;
    assert forall|i: int| 0 <= i < line.len() implies other_than('\n')(#[trigger] noted[i]) by {
        if i < code.len() {
            assert(code.contains(code[i]));
        } else if i > code.len() {
            assert(comment.contains(comment[i - code.len() - 1]));
        }
    }
    run_length_is(noted, other_than('\n'), line.len());
    assert(noted.take(line.len() as int) =~= line);
    assert(noted.skip(line.len() as int + 1) =~= rest);
    assert(code + seq!['#'] + comment + seq!['\n'] + rest == noted);
    let bare = if line.len() > 0 && line.last() == '\r' {
        line.drop_last()
    } else {
        line
    };
    code_of_line(code, bare.skip(code.len() as int), bare);
    assert(head(noted) == code);

    let ended = code + seq!['\r'];
    let text = code + seq!['\r', '\n'] + rest;
    assert forall|i: int| 0 <= i < ended.len() implies other_than('\n')(#[trigger] text[i]) by {
        if i < code.len() {
            assert(code.contains(code[i]));
        }
    }
    run_length_is(text, other_than('\n'), ended.len());
    assert(text.take(ended.len() as int) =~= ended);
    assert(text.skip(ended.len() as int + 1) =~= rest);
    assert(ended.drop_last() =~= code);
    assert(head(text) == code);
}

proof fn code_of_line(code: Seq<char>, more: Seq<char>, line: Seq<char>)
    requires
        !code.contains('#'),
        line =~= code + more,
        more.len() > 0 ==> more[0] == '#',
        more.len() == 0 ==> (code.len() == 0 || code.last() != '\r'),
    ensures
        line.take(run_length(line, other_than('#')) as int) == code,
{
    assert forall|i: int| 0 <= i < code.len() implies other_than('#')(#[trigger] line[i]) by {
        assert(line[i] == code[i]);
        assert(code.contains(code[i]));
    }
    run_length_is(line, other_than('#'), code.len());
    assert(line.take(code.len() as int) =~= code);
}

/// A line that ends with a backslash goes on in the next one, as if a space stood between them.
pub proof fn statements_go_on_behind_a_backslash(code: Seq<char>, more: Seq<char>, rest: Seq<char>)
    requires
        !code.contains('\n'),
        !code.contains('#'),
        !more.contains('\n'),
        !more.contains('#'),
        !more.contains('\r'),
        more.len() > 0 ==> more.last() != '\\',
    ensures
        statement(code + seq!['\\', '\n'] + more + seq!['\n'] + rest) == Some(
            (code + seq![' '] + more, rest),
        ),
{
    let line = code + seq!['\\'];
    let next = more + seq!['\n'] + rest;
    let text = line + seq!['\n'] + next;
    assert(code + seq!['\\', '\n'] + more + seq!['\n'] + rest =~= text);
    assert forall|i: int| 0 <= i < line.len() implies other_than('\n')(#[trigger] text[i]) by {
        if i < code.len() {
            assert(code.contains(code[i]));
        }
    }
    run_length_is(text, other_than('\n'), line.len());
    assert(text.take(line.len() as int) =~= line);
    assert(text.skip(line.len() as int + 1) =~= next);
    assert(!line.contains('#')) by {
        if line.contains('#') {
            let i = line.index_of('#');
            assert(code[i] == '#');
        }
    }
    code_of_line(line, seq![], line);
    assert(head(text) == line);
    assert(line.drop_last() =~= code);
    lines_are_statements(more, seq![], rest);
    assert(tail(text) == next);
}

} // verus!
