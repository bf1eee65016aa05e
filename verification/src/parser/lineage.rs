//! The lineage diagram of a workspace: its text, and the form in which a
//! diagram travels in the address of the online editor.

use vstd::prelude::*;
use crate::parser::dependencies::DependencyMap;

verus! {

/// The lines that name the first `count` units, one node each.
pub open spec fn node_lines(names: Seq<Seq<char>>, count: nat) -> Seq<char>
    decreases count,
{
    if 0 < count <= names.len() {
        node_lines(names, (count - 1) as nat) + "    "@ + names[count - 1] + "\n"@
    } else {
        Seq::empty()
    }
}

/// The lines for the first `count` dependencies of a unit: an edge from
/// each one that is a unit itself, none for any other.
pub open spec fn unit_edge_lines(
    known: Set<Seq<char>>,
    deps: Seq<Seq<char>>,
    name: Seq<char>,
    count: nat,
) -> Seq<char>
    decreases count,
{
    if 0 < count <= deps.len() {
        unit_edge_lines(known, deps, name, (count - 1) as nat) + if known.contains(
            deps[count - 1],
        ) {
            "    "@ + deps[count - 1] + " --> "@ + name + "\n"@
        } else {
            Seq::empty()
        }
    } else {
        Seq::empty()
    }
}

/// The lines for the edges into the first `count` units.
pub open spec fn edge_lines(dependencies: &DependencyMap, count: nat) -> Seq<char>
    decreases count,
{
    if 0 < count <= dependencies.names().len() {
        edge_lines(dependencies, (count - 1) as nat) + unit_edge_lines(
            dependencies@.dom(),
            dependencies.unit(count - 1).deps.seq(),
            dependencies.names()[count - 1],
            dependencies.unit(count - 1).deps.seq().len(),
        )
    } else {
        Seq::empty()
    }
}

/// The text of the diagram: the header, a node for each unit and an edge
/// for each dependency between two units.
pub open spec fn diagram(dependencies: &DependencyMap) -> Seq<char> {
    "graph TD\n"@ + node_lines(dependencies.names(), dependencies.names().len()) + edge_lines(
        dependencies,
        dependencies.names().len(),
    )
}

/// Generate the diagram of the dependencies, in the notation of Mermaid.
pub fn generate_mermaid_diagram(dependencies: &DependencyMap) -> (r: String)
    requires
        dependencies.wf(),
    ensures
        r@ == diagram(dependencies),
{
    let n = dependencies.len();
    let mut text = "graph TD\n".to_owned();
    let mut i: usize = 0;
    while i < n
        invariant
            dependencies.wf(),
            n == dependencies.names().len(),
            i <= n,
            text@ == "graph TD\n"@ + node_lines(dependencies.names(), i as nat),
        decreases n - i,
    {
        text.append("    ");
        text.append(dependencies.name_at(i).as_str());
        text.append("\n");
        i += 1;
    }
    let ghost nodes = text@;
    let mut target: usize = 0;
    while target < n
        invariant
            dependencies.wf(),
            n == dependencies.names().len(),
            target <= n,
            text@ == nodes + edge_lines(dependencies, target as nat),
        decreases n - target,
    {
        let unit = dependencies.unit_at(target);
        let name = dependencies.name_at(target);
        let count = unit.deps.len();
        let ghost before = text@;
        let mut seen: usize = 0;
        while seen < count
            invariant
                unit.deps.wf(),
                count == unit.deps.seq().len(),
                seen <= count,
                text@ == before + unit_edge_lines(
                    dependencies@.dom(),
                    unit.deps.seq(),
                    name@,
                    seen as nat,
                ),
            decreases count - seen,
        {
            let dependency = unit.deps.name_at(seen);
            if dependencies.contains_key(dependency.as_str()) {
                text.append("    ");
                text.append(dependency.as_str());
                text.append(" --> ");
                text.append(name.as_str());
                text.append("\n");
            }
            seen += 1;
        }
        target += 1;
    }
    text
}

/// The hexadecimal digit of a value below sixteen, in lower case.
pub open spec fn hex_digit(value: int) -> char {
    if value < 10 {
        (48 + value) as u8 as char
    } else {
        (87 + value) as u8 as char
    }
}

/// How a character stands in a JSON string: a quote and a backslash
/// behind a backslash, a control character as its short escape or as
/// `\u00` and two hexadecimal digits, any other character as itself.
pub open spec fn json_escaped_char(c: char) -> Seq<char> {
    if c == '"' {
        seq!['\\', '"']
    } else if c == '\\' {
        seq!['\\', '\\']
    } else if c == '\u{8}' {
        seq!['\\', 'b']
    } else if c == '\t' {
        seq!['\\', 't']
    } else if c == '\n' {
        seq!['\\', 'n']
    } else if c == '\u{c}' {
        seq!['\\', 'f']
    } else if c == '\r' {
        seq!['\\', 'r']
    } else if (c as u32) < 0x20 {
        seq!['\\', 'u', '0', '0', hex_digit((c as u32) as int / 16), hex_digit((c as u32) as int % 16)]
    } else {
        seq![c]
    }
}

/// A text with each character as it stands in a JSON string.
pub open spec fn json_escaped(text: Seq<char>) -> Seq<char>
    decreases text.len(),
{
    if text.len() == 0 {
        Seq::empty()
    } else {
        json_escaped_char(text[0]) + json_escaped(text.skip(1))
    }
}

/// A text as a JSON string, quotes included.
pub open spec fn json_string_literal(text: Seq<char>) -> Seq<char> {
    seq!['"'] + json_escaped(text) + seq!['"']
}

/// The character that stands for a value below sixty-four in the base64
/// alphabet that is safe in addresses.
pub open spec fn base64_char(value: int) -> char {
    if value < 26 {
        (65 + value) as u8 as char
    } else if value < 52 {
        (97 + value - 26) as u8 as char
    } else if value < 62 {
        (48 + value - 52) as u8 as char
    } else if value == 62 {
        '-'
    } else {
        '_'
    }
}

/// The base64 text of bytes, in the alphabet that is safe in addresses:
/// four characters for each three bytes, and for a rest of one or two
/// bytes four characters of which the last two or the last one is the
/// padding `=`.
pub open spec fn base64_url(bytes: Seq<u8>) -> Seq<char>
    decreases bytes.len(),
{
    if bytes.len() == 0 {
        Seq::empty()
    } else if bytes.len() == 1 {
        seq![base64_char(bytes[0] as int / 4), base64_char((bytes[0] as int % 4) * 16), '=', '=']
    } else if bytes.len() == 2 {
        seq![
            base64_char(bytes[0] as int / 4),
            base64_char((bytes[0] as int % 4) * 16 + bytes[1] as int / 16),
            base64_char((bytes[1] as int % 16) * 4),
            '=',
        ]
    } else {
        seq![
            base64_char(bytes[0] as int / 4),
            base64_char((bytes[0] as int % 4) * 16 + bytes[1] as int / 16),
            base64_char((bytes[1] as int % 16) * 4 + bytes[2] as int / 64),
            base64_char(bytes[2] as int % 64),
        ] + base64_url(bytes.skip(3))
    }
}

/// What zlib makes of bytes at its best compression level, or nothing
/// where the encoder reports an error.
pub uninterp spec fn zlib_best(bytes: Seq<u8>) -> Option<Seq<u8>>;

/// Calls `serde_json::to_string` on a text, which writes it as a JSON
/// string: in quotes, with the quote, the backslash and the control
/// characters escaped.
#[verifier::external_body]
fn json_quote(text: &str) -> (r: String)
    ensures
        r@ == json_string_literal(text@),
{
    serde_json::to_string(text).unwrap_or_default()
}

/// Writes bytes through `flate2::write::ZlibEncoder` at
/// `Compression::best` and calls `finish`. The contract only gives the
/// result its name.
#[verifier::external_body]
fn zlib_compress(bytes: &[u8]) -> (r: Option<Vec<u8>>)
    ensures
        match r {
            Some(compressed) => zlib_best(bytes@) == Some(compressed@),
            None => zlib_best(bytes@) is None,
        },
{
    let mut encoder = flate2::write::ZlibEncoder::new(Vec::new(), flate2::Compression::best());
    match std::io::Write::write_all(&mut encoder, bytes) {
        Ok(_) => encoder.finish().ok(),
        Err(_) => None,
    }
}

/// Calls `Engine::encode` of `base64::engine::general_purpose::URL_SAFE`,
/// which panics where the length of the text would not fit: the base64
/// text in the alphabet that is safe in addresses, with padding.
#[verifier::external_body]
fn base64_encode(bytes: &Vec<u8>) -> (r: String)
    requires
        bytes@.len() <= usize::MAX / 4 * 3 - 3,
    ensures
        r@ == base64_url(bytes@),
{
    base64::Engine::encode(&base64::engine::general_purpose::URL_SAFE, bytes)
}

/// Why a diagram could not be encoded.
#[derive(Debug, Clone, Copy, PartialEq, Eq, Structural)]
pub enum EncodeError {
    /// The encoder of the compression reported an error.
    Compression,
    /// The compressed diagram is too long to be written as base64.
    TooLong,
}

/// The state that the online editor expects, as JSON text: the diagram
/// as its code, the default theme, and both switches on.
pub open spec fn editor_state(diagram: Seq<char>) -> Seq<char> {
    "{\"autoSync\":true,\"code\":"@ + json_string_literal(diagram)
        + ",\"mermaid\":{\"theme\":\"default\"},\"updateDiagram\":true}"@
}

/// The bytes of a text in UTF-8.
pub open spec fn utf8(text: Seq<char>) -> Seq<u8> {
    vstd::utf8::encode_utf8(text)
}

/// What a diagram is encoded as: the base64 text of the compressed
/// state.
pub open spec fn encoded_diagram(diagram: Seq<char>) -> Result<Seq<char>, EncodeError> {
    match zlib_best(utf8(editor_state(diagram))) {
        None => Err(EncodeError::Compression),
        Some(compressed) => if compressed.len() <= usize::MAX / 4 * 3 - 3 {
            Ok(base64_url(compressed))
        } else {
            Err(EncodeError::TooLong)
        },
    }
}

/// Encode a diagram for the address of the online editor.
pub fn encode_mermaid_diagram(diagram: &str) -> (r: Result<String, EncodeError>)
    ensures
        match r {
            Ok(encoded) => encoded_diagram(diagram@) == Ok::<Seq<char>, EncodeError>(encoded@),
            Err(error) => encoded_diagram(diagram@) == Err::<Seq<char>, EncodeError>(error),
        },
{
    let mut state = "{\"autoSync\":true,\"code\":".to_owned();
    state.append(json_quote(diagram).as_str());
    state.append(",\"mermaid\":{\"theme\":\"default\"},\"updateDiagram\":true}");
    match zlib_compress(state.as_str().as_bytes()) {
        Some(compressed) => {
            if compressed.len() <= usize::MAX / 4 * 3 - 3 {
                Ok(base64_encode(&compressed))
            } else {
                Err(EncodeError::TooLong)
            }
        },
        None => Err(EncodeError::Compression),
    }
}

/// The address under which the online editor shows a diagram.
pub fn mermaid_live_url(diagram: &str) -> (r: Result<String, EncodeError>)
    ensures
        match r {
            Ok(url) => encoded_diagram(diagram@) is Ok && url@ == "https://mermaid.live/edit#pako:"@
                + encoded_diagram(diagram@)->Ok_0,
            Err(error) => encoded_diagram(diagram@) == Err::<Seq<char>, EncodeError>(error),
        },
{
    match encode_mermaid_diagram(diagram) {
        Ok(encoded) => {
            let mut url = "https://mermaid.live/edit#pako:".to_owned();
            url.append(encoded.as_str());
            Ok(url)
        },
        Err(error) => Err(error),
    }
}

} // verus!
