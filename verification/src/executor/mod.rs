//! What is to be done to the database for a unit, and how the values of
//! environment variables get into a statement.

pub mod output;

use vstd::prelude::*;
use crate::parser::config::PatternError;
use crate::text::{
    all_captures, append_present, capture_all, join, optional_texts, present, text_eq, texts,
};

verus! {

/// An environment variable as it was looked up: its name, and its value
/// if it is set.
#[derive(Debug)]
pub struct EnvVar {
    pub name: String,
    pub value: Option<String>,
}

/// The model of an environment variable.
pub ghost struct EnvVarModel {
    pub name: Seq<char>,
    pub value: Option<Seq<char>>,
}

impl View for EnvVar {
    type V = EnvVarModel;

    open spec fn view(&self) -> EnvVarModel {
        EnvVarModel {
            name: self.name@,
            value: match self.value {
                Some(value) => Some(value@),
                None => None,
            },
        }
    }
}

/// The models of a list of environment variables.
pub open spec fn env_model(env: Seq<EnvVar>) -> Seq<EnvVarModel> {
    Seq::new(env.len(), |i: int| env[i]@)
}

/// The position of the first variable with a name, at or after `from`;
/// the number of variables if there is none.
pub open spec fn env_index(env: Seq<EnvVar>, name: Seq<char>, from: int) -> int
    decreases env.len() - from,
{
    if 0 <= from < env.len() {
        if env[from].name@ == name {
            from
        } else {
            env_index(env, name, from + 1)
        }
    } else {
        env.len() as int
    }
}

/// What stands in the place of a placeholder: the value of the variable
/// where it was looked up and is set, else the placeholder itself,
/// written without spaces.
pub open spec fn placeholder_text(env: Seq<EnvVar>, name: Seq<char>) -> Seq<char> {
    let index = env_index(env, name, 0);
    if 0 <= index < env.len() && env[index].value is Some {
        env[index].value->Some_0@
    } else {
        "{{"@ + name + "}}"@
    }
}

/// What stands in the place of a match of the placeholder pattern: that
/// of the name it captured, or of the empty name where it captured none.
pub open spec fn match_text(env: Seq<EnvVar>, name: Option<&str>) -> Seq<char> {
    match name {
        Some(name) => placeholder_text(env, name@),
        None => placeholder_text(env, Seq::empty()),
    }
}

/// The text for a match of the placeholder pattern.
pub fn match_value(name: Option<&str>, env: &Vec<EnvVar>) -> (r: String)
    ensures
        r@ == match_text(env@, name),
{
    match name {
        Some(name) => placeholder_value(name, env),
        None => {
            proof {
                reveal_strlit("");
                assert(""@ =~= Seq::<char>::empty());
            }
            placeholder_value("", env)
        },
    }
}

/// The text for the placeholder of a variable.
pub fn placeholder_value(name: &str, env: &Vec<EnvVar>) -> (r: String)
    ensures
        r@ == placeholder_text(env@, name@),
{
    let mut i: usize = 0;
    while i < env.len()
        invariant
            i <= env@.len(),
            env_index(env@, name@, 0) == env_index(env@, name@, i as int),
        decreases env@.len() - i,
    {
        if text_eq(env[i].name.as_str(), name) {
            return match &env[i].value {
                Some(value) => value.clone(),
                None => join("{{", name).concat("}}"),
            };
        }
        i += 1;
    }
    join("{{", name).concat("}}")
}

/// The pattern of a placeholder: a name in double braces, spaces allowed
/// around the name.
pub open spec fn placeholder_pattern() -> Seq<char> {
    "\\{\\{\\s*(\\w+)\\s*\\}\\}"@
}

/// A text with each match of a regular expression replaced by the text
/// for what the first group captured there, or the message of the error
/// where the pattern is none.
pub uninterp spec fn with_placeholders_replaced(
    pattern: Seq<char>,
    text: Seq<char>,
    env: Seq<EnvVarModel>,
) -> Result<Seq<char>, Seq<char>>;

/// Calls `regex::Regex::new` and `Regex::replace_all` with `match_value`
/// of the first group as the replacer. The contract only gives the
/// result its name.
#[verifier::external_body]
fn replace_matches(pattern: &str, text: &str, env: &Vec<EnvVar>) -> (r: Result<String, String>)
    ensures
        match r {
            Ok(replaced) => with_placeholders_replaced(pattern@, text@, env_model(env@)) == Ok::<
                Seq<char>,
                Seq<char>,
            >(replaced@),
            Err(message) => with_placeholders_replaced(pattern@, text@, env_model(env@)) == Err::<
                Seq<char>,
                Seq<char>,
            >(message@),
        },
{
    match regex::Regex::new(pattern) {
        Ok(regex) => Ok(
            regex.replace_all(
                text,
                |captures: &regex::Captures| {
                    match_value(captures.get(1).map(|group| group.as_str()), env)
                },
            ).into_owned(),
        ),
        Err(error) => Err(error.to_string()),
    }
}

/// The names of the environment variables that a statement has
/// placeholders for, one for each placeholder.
pub fn env_var_names(sql: &str) -> (r: Result<Vec<String>, PatternError>)
    ensures
        match r {
            Ok(names) => all_captures(placeholder_pattern(), sql@) is Ok && texts(names@) == present(
                all_captures(placeholder_pattern(), sql@)->Ok_0,
                all_captures(placeholder_pattern(), sql@)->Ok_0.len(),
            ),
            Err(error) => all_captures(placeholder_pattern(), sql@) == Err::<
                Seq<Option<Seq<char>>>,
                Seq<char>,
            >(error.message@),
        },
{
    match capture_all("\\{\\{\\s*(\\w+)\\s*\\}\\}", sql) {
        Ok(captured) => {
            let mut names: Vec<String> = Vec::new();
            append_present(&mut names, &captured);
            assert(texts(names@) =~= present(optional_texts(captured@), captured@.len()));
            Ok(names)
        },
        Err(message) => Err(PatternError { message }),
    }
}

/// Replaces the placeholders of a statement by the values of their
/// environment variables. A placeholder whose variable is not set stays.
pub fn replace_env_vars(sql: &str, env: &Vec<EnvVar>) -> (r: Result<String, PatternError>)
    ensures
        match r {
            Ok(text) => with_placeholders_replaced(placeholder_pattern(), sql@, env_model(env@))
                == Ok::<Seq<char>, Seq<char>>(text@),
            Err(error) => with_placeholders_replaced(placeholder_pattern(), sql@, env_model(env@))
                == Err::<Seq<char>, Seq<char>>(error.message@),
        },
{
    match replace_matches("\\{\\{\\s*(\\w+)\\s*\\}\\}", sql, env) {
        Ok(text) => Ok(text),
        Err(message) => Err(PatternError { message }),
    }
}

} // verus!
