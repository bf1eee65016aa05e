//! The configuration that a unit carries in its comments: a line that
//! begins with `-- @config:` holds a directive.

use vstd::prelude::*;
use crate::config::ModelConfig;
use crate::text::{all_captures, append_present, capture_all, present, texts};

verus! {

/// Where the line that begins at `from` ends: at the first line feed at
/// or after `from`, or at the end of the text.
pub open spec fn line_end(text: Seq<char>, from: int) -> int
    decreases text.len() - from,
{
    if 0 <= from < text.len() {
        if text[from] == '\n' {
            from
        } else {
            line_end(text, from + 1)
        }
    } else {
        text.len() as int
    }
}

/// The lines of a text from `from` on. A line ends at a line feed or at
/// the end of the text; the line feed is not part of it, nor is a
/// carriage return just before the line feed. After the last line feed
/// there is a line only if there is text.
pub open spec fn lines_from(text: Seq<char>, from: int) -> Seq<Seq<char>>
    decreases text.len() - from,
    when 0 <= from
{
    if from >= text.len() {
        Seq::empty()
    } else {
        let end = line_end(text, from);
        let line = text.subrange(from, end);
        if end < text.len() && from <= end {
            seq![
                if line.len() > 0 && line.last() == '\r' {
                    line.drop_last()
                } else {
                    line
                },
            ] + lines_from(text, end + 1)
        } else {
            seq![line]
        }
    }
}

/// The lines of a text.
pub open spec fn lines_of(text: Seq<char>) -> Seq<Seq<char>> {
    lines_from(text, 0)
}

/// Calls `str::lines`: the text is split at line feeds, and each line
/// comes without its line feed and without a carriage return before it.
#[verifier::external_body]
fn text_lines(text: &str) -> (r: Vec<String>)
    ensures
        r@.len() == lines_of(text@).len(),
        forall|i: int| 0 <= i < r@.len() ==> r@[i]@ == lines_of(text@)[i],
{
    text.lines().map(|line| line.to_owned()).collect()
}

/// The pattern of a directive line: `-- @config:` at the start of the
/// line, spaces allowed around its parts, and then the directive.
pub open spec fn directive_pattern() -> Seq<char> {
    "^\\s*--\\s*@config:\\s*(.+)$"@
}

/// The directives on the first `count` lines, in order, or the message
/// of the first error of the pattern. The pattern takes a whole line, so
/// a line holds one directive or none.
pub open spec fn directives(lines: Seq<Seq<char>>, count: nat) -> Result<
    Seq<Seq<char>>,
    Seq<char>,
>
    decreases count,
{
    if 0 < count <= lines.len() {
        match directives(lines, (count - 1) as nat) {
            Err(message) => Err(message),
            Ok(found) => match all_captures(directive_pattern(), lines[count - 1]) {
                Err(message) => Err(message),
                Ok(captured) => Ok(found + present(captured, captured.len())),
            },
        }
    } else {
        Ok(Seq::empty())
    }
}

proof fn lemma_directives_error_stays(lines: Seq<Seq<char>>, count: nat, more: nat)
    requires
        count <= more <= lines.len(),
        directives(lines, count) is Err,
    ensures
        directives(lines, more) == directives(lines, count),
    decreases more,
{
    if count < more {
        lemma_directives_error_stays(lines, count, (more - 1) as nat);
    }
}

/// The pattern of the directive lines could not be used.
#[derive(Debug)]
pub struct PatternError {
    pub message: String,
}

/// The texts of the directives of a SQL text, in the order of their
/// lines.
pub fn config_directives(sql: &str) -> (r: Result<Vec<String>, PatternError>)
    ensures
        match r {
            Ok(found) => directives(lines_of(sql@), lines_of(sql@).len()) == Ok::<
                Seq<Seq<char>>,
                Seq<char>,
            >(texts(found@)),
            Err(error) => directives(lines_of(sql@), lines_of(sql@).len()) == Err::<
                Seq<Seq<char>>,
                Seq<char>,
            >(error.message@),
        },
{
    let lines = text_lines(sql);
    let mut found: Vec<String> = Vec::new();
    let mut i: usize = 0;
    assert(texts(found@) =~= Seq::<Seq<char>>::empty());
    while i < lines.len()
        invariant
            i <= lines@.len(),
            lines@.len() == lines_of(sql@).len(),
            forall|j: int| 0 <= j < lines@.len() ==> lines@[j]@ == lines_of(sql@)[j],
            directives(lines_of(sql@), i as nat) == Ok::<Seq<Seq<char>>, Seq<char>>(texts(found@)),
        decreases lines@.len() - i,
    {
        match capture_all("^\\s*--\\s*@config:\\s*(.+)$", lines[i].as_str()) {
            Ok(captured) => {
                append_present(&mut found, &captured);
            },
            Err(message) => {
                proof {
                    lemma_directives_error_stays(
                        lines_of(sql@),
                        (i + 1) as nat,
                        lines_of(sql@).len(),
                    );
                }
                return Err(PatternError { message });
            },
        }
        i += 1;
    }
    Ok(found)
}

/// The configuration that the first `count` directives of a text amount
/// to, where each is given as it was read, or as nothing where it could
/// not be read. A text without a readable directive has no
/// configuration. Of the readable ones, the last that configures the
/// output decides it.
pub open spec fn merged_config(read: Seq<Option<ModelConfig>>, count: nat) -> Option<ModelConfig>
    decreases count,
{
    if 0 < count <= read.len() {
        let before = merged_config(read, (count - 1) as nat);
        match read[count - 1] {
            None => before,
            Some(config) => Some(
                ModelConfig {
                    output: if config.output is Some {
                        config.output
                    } else {
                        match before {
                            Some(earlier) => earlier.output,
                            None => None,
                        }
                    },
                },
            ),
        }
    } else {
        None
    }
}

/// Merges the directives of a text into its configuration.
pub fn merge_model_configs(read: &Vec<Option<ModelConfig>>) -> (r: Option<ModelConfig>)
    ensures
        r == merged_config(read@, read@.len()),
{
    let mut merged: Option<ModelConfig> = None;
    let mut i: usize = 0;
    while i < read.len()
        invariant
            i <= read@.len(),
            merged == merged_config(read@, i as nat),
        decreases read@.len() - i,
    {
        match &read[i] {
            Some(config) => {
                let output = match &config.output {
                    Some(output) => Some(output.duplicate()),
                    None => match &merged {
                        Some(earlier) => match &earlier.output {
                            Some(output) => Some(output.duplicate()),
                            None => None,
                        },
                        None => None,
                    },
                };
                merged = Some(ModelConfig { output });
            },
            None => {},
        }
        i += 1;
    }
    merged
}

} // verus!
