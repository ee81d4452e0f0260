//! The secret material of a deployment, a marker and a key, and its
//! renderings as source text for the programs that must agree on it.

use vstd::prelude::*;
use vstd::string::StringExecFns;
use crate::error::GuardError;
use crate::text::{
    hex_token, lemma_token_round_trip, parse_token, push_hex_token, render_token, token_byte,
};

verus! {

/// How many bytes an exported declaration shows on one row.
pub const BYTES_PER_ROW: usize = 4;

/// The marker length of freshly initialised material.
pub const DEFAULT_HEADER_LEN: usize = 12;

/// The key length of freshly initialised material.
pub const DEFAULT_KEY_LEN: usize = 16;

/// The secret material of one deployment.
///
/// `header` is the marker that tags packaged files; `key` drives the byte
/// transform and must not be empty wherever content is encoded or decoded.
#[derive(Debug, Clone)]
pub struct GuardConfig {
    pub header: Vec<u8>,
    pub key: Vec<u8>,
}

/// The indentation that starts every row of an exported declaration.
pub open spec fn indent() -> Seq<char> {
    seq![' ', ' ', ' ', ' ']
}

/// What stands in front of the token of the byte at index `i`: the
/// indentation for the first byte, a line break and the indentation where a
/// further row begins, a single space anywhere else.
pub open spec fn lead(i: int) -> Seq<char> {
    if i == 0 {
        indent()
    } else if i % (BYTES_PER_ROW as int) == 0 {
        seq!['\n'] + indent()
    } else {
        seq![' ']
    }
}

/// The rendering of the first `k` bytes: each byte as its lead, its
/// lower-case token and a comma.
pub open spec fn rows_upto(bytes: Seq<u8>, k: nat) -> Seq<char>
    decreases k,
{
    if k == 0 {
        Seq::empty()
    } else {
        rows_upto(bytes, (k - 1) as nat) + lead(k - 1) + hex_token(bytes[k - 1]) + seq![',']
    }
}

/// The rows of a byte-array literal: the bytes as comma-terminated tokens,
/// four to a row, every row indented. With no bytes it is the bare
/// indentation.
pub open spec fn array_rows(bytes: Seq<u8>) -> Seq<char> {
    if bytes.len() == 0 {
        indent()
    } else {
        rows_upto(bytes, bytes.len())
    }
}

/// The text that opens the declaration of `name` in Rust syntax.
pub open spec fn rust_opening(name: Seq<char>) -> Seq<char> {
    "pub const "@ + name + ": &[u8] = &["@
}

/// The text that opens the declaration of `name` in PHP syntax.
pub open spec fn php_opening(name: Seq<char>) -> Seq<char> {
    "const "@ + name + " = ["@
}

/// A whole declaration: the opening, a line break, the rows, and the
/// closing bracket with its semicolon and line break.
pub open spec fn declaration(opening: Seq<char>, bytes: Seq<u8>) -> Seq<char> {
    opening + "\n"@ + array_rows(bytes) + "];\n"@
}

/// The export of a marker and a key in Rust syntax: the declaration of
/// `HEADER`, an empty line, the declaration of `KEY`.
pub open spec fn rust_code(header: Seq<u8>, key: Seq<u8>) -> Seq<char> {
    declaration(rust_opening("HEADER"@), header) + "\n"@ + declaration(rust_opening("KEY"@), key)
}

/// The export of a marker and a key in PHP syntax: the declaration of
/// `HEADER`, an empty line, the declaration of `KEY`.
pub open spec fn php_code(header: Seq<u8>, key: Seq<u8>) -> Seq<char> {
    declaration(php_opening("HEADER"@), header) + "\n"@ + declaration(php_opening("KEY"@), key)
}

/// Renders the rows of a byte-array literal.
fn format_rows(bytes: &[u8]) -> (out: String)
    ensures
        out@ == array_rows(bytes@),
{
    proof {
        reveal_strlit("    ");
    }
    let mut out = String::new();
    if bytes.len() == 0 {
        out.append("    ");
        return out;
    }
    let mut i: usize = 0;
    while i < bytes.len()
        invariant
            i <= bytes@.len(),
            out@ == rows_upto(bytes@, i as nat),
        decreases bytes@.len() - i,
    {
        proof {
            reveal_strlit("    ");
            reveal_strlit("\n    ");
            reveal_strlit(" ");
            reveal_strlit(",");
        }
        if i == 0 {
            out.append("    ");
        } else if i % BYTES_PER_ROW == 0 {
            out.append("\n    ");
        } else {
            out.append(" ");
        }
        push_hex_token(&mut out, bytes[i]);
        out.append(",");
        assert(out@ =~= rows_upto(bytes@, (i + 1) as nat));
        i += 1;
    }
    out
}

/// Renders `bytes` as the rows of a Rust array literal.
pub fn format_bytes_rust(bytes: &[u8]) -> (out: String)
    ensures
        out@ == array_rows(bytes@),
{
    format_rows(bytes)
}

/// Renders `bytes` as the rows of a PHP array literal. The two syntaxes
/// write the rows alike; only what surrounds them differs.
pub fn format_bytes_php(bytes: &[u8]) -> (out: String)
    ensures
        out@ == array_rows(bytes@),
{
    format_rows(bytes)
}

/// The texts of a list of strings.
pub open spec fn texts(tokens: Seq<String>) -> Seq<Seq<char>> {
    Seq::new(tokens.len(), |i: int| tokens[i]@)
}

/// The record tokens of a byte sequence: one lower-case token for each
/// byte, in order.
pub open spec fn tokens_of(bytes: Seq<u8>) -> Seq<Seq<char>> {
    Seq::new(bytes.len(), |i: int| hex_token(bytes[i]))
}

/// Whether every one of `tokens` writes a byte.
pub open spec fn all_tokens_read(tokens: Seq<Seq<char>>) -> bool {
    forall|i: int| 0 <= i < tokens.len() ==> token_byte(#[trigger] tokens[i]) is Some
}

/// The bytes that a list of record tokens writes, or `None` where one of
/// them writes no byte.
pub open spec fn read_tokens(tokens: Seq<Seq<char>>) -> Option<Seq<u8>> {
    if all_tokens_read(tokens) {
        Some(Seq::new(tokens.len(), |i: int| token_byte(tokens[i])->0))
    } else {
        None
    }
}

/// The material that two lists of record tokens write: both lists must
/// read, and the key must not come out empty.
pub open spec fn material_from(header: Seq<Seq<char>>, key: Seq<Seq<char>>) -> Option<
    (Seq<u8>, Seq<u8>),
> {
    match (read_tokens(header), read_tokens(key)) {
        (Some(h), Some(k)) => if k.len() > 0 {
            Some((h, k))
        } else {
            None
        },
        _ => None,
    }
}

/// Renders bytes as the tokens of a configuration record.
pub fn serialize(bytes: &Vec<u8>) -> (tokens: Vec<String>)
    ensures
        texts(tokens@) == tokens_of(bytes@),
{
    let mut tokens: Vec<String> = Vec::new();
    let mut i: usize = 0;
    while i < bytes.len()
        invariant
            i <= bytes@.len(),
            tokens@.len() == i,
            forall|j: int| 0 <= j < i ==> (#[trigger] tokens@[j])@ == hex_token(bytes@[j]),
        decreases bytes@.len() - i,
    {
        tokens.push(render_token(bytes[i]));
        i += 1;
    }
    assert(texts(tokens@) =~= tokens_of(bytes@));
    tokens
}

/// Reads the tokens of a configuration record back into bytes.
///
/// A token may carry `0x` or `0X` in front, or neither; what follows must
/// write a byte in radix 16. One token that does not fails the whole list
/// with `ConfigMalformed`.
pub fn deserialize(tokens: &Vec<String>) -> (r: Result<Vec<u8>, GuardError>)
    ensures
        match r {
            Ok(bytes) => read_tokens(texts(tokens@)) == Some(bytes@),
            Err(e) => e == GuardError::ConfigMalformed && read_tokens(texts(tokens@)) is None,
        },
{
    let ghost all = texts(tokens@);
    let mut bytes: Vec<u8> = Vec::new();
    let mut i: usize = 0;
    while i < tokens.len()
        invariant
            i <= tokens@.len(),
            all == texts(tokens@),
            bytes@.len() == i,
            forall|j: int| 0 <= j < i ==> token_byte(#[trigger] all[j]) == Some(bytes@[j]),
        decreases tokens@.len() - i,
    {
        match parse_token(tokens[i].as_str()) {
            Some(b) => {
                bytes.push(b);
            },
            None => {
                assert(token_byte(all[i as int]) is None);
                return Err(GuardError::ConfigMalformed);
            },
        }
        i += 1;
    }
    assert(read_tokens(all)->0 =~= bytes@);
    Ok(bytes)
}

/// Tokens rendered from bytes read back as those bytes.
pub proof fn lemma_tokens_round_trip(bytes: Seq<u8>)
    ensures
        read_tokens(tokens_of(bytes)) == Some(bytes),
{
    let tokens = tokens_of(bytes);
    assert forall|i: int| 0 <= i < tokens.len() implies token_byte(#[trigger] tokens[i]) == Some(
        bytes[i],
    ) by {
        lemma_token_round_trip(bytes[i]);
    }
    assert(read_tokens(tokens)->0 =~= bytes);
}

/// What parsing a text as structured configuration finds under `field` of
/// the table `section`: `None` where the text is no valid document;
/// `Some(None)` where the document has no such table, the table no such
/// field, or the field is not an array of strings; otherwise the strings of
/// that array.
pub uninterp spec fn toml_string_list(
    content: Seq<char>,
    section: Seq<char>,
    field: Seq<char>,
) -> Option<Option<Seq<Seq<char>>>>;

/// The text of the structured document with one table `section` that holds
/// two arrays of strings, `first_items` under `first` and `second_items`
/// under `second`; `None` where the serializer refuses it.
pub uninterp spec fn toml_record_text(
    section: Seq<char>,
    first: Seq<char>,
    first_items: Seq<Seq<char>>,
    second: Seq<char>,
    second_items: Seq<Seq<char>>,
) -> Option<Seq<char>>;

/// The error of `toml`'s parser; nothing is read from it.
#[verifier::external_type_specification]
#[verifier::external_body]
pub struct ExTomlParseError(toml::de::Error);

/// The error of `toml`'s serializer; nothing is read from it.
#[verifier::external_type_specification]
#[verifier::external_body]
pub struct ExTomlRenderError(toml::ser::Error);

/// Calls `toml::from_str` to parse `content` into a `toml::Table` and hands
/// out the array of strings at `section`.`field`.
///
/// Trusted: the result is a function of the three texts alone, named
/// `toml_string_list`. A parse error is handed on as it is; a table, field
/// or array element of another kind gives `Ok(None)`.
#[verifier::external_body]
fn record_list(content: &str, section: &str, field: &str) -> (r: Result<
    Option<Vec<String>>,
    toml::de::Error,
>)
    ensures
        match r {
            Ok(Some(items)) => toml_string_list(content@, section@, field@) == Some(
                Some(texts(items@)),
            ),
            Ok(None) => toml_string_list(content@, section@, field@) == Some(
                None::<Seq<Seq<char>>>,
            ),
            Err(_) => toml_string_list(content@, section@, field@) is None,
        },
{
    let doc = toml::from_str::<toml::Table>(content)?;
    let Some(toml::Value::Table(table)) = doc.get(section) else { return Ok(None) };
    let Some(toml::Value::Array(items)) = table.get(field) else { return Ok(None) };
    let mut out = Vec::new();
    for item in items {
        let toml::Value::String(text) = item else { return Ok(None) };
        out.push(text.clone());
    }
    Ok(Some(out))
}

/// Builds the document with one table `section` holding the two arrays and
/// calls `toml::to_string_pretty` on it.
///
/// Trusted: the result is a function of the five arguments alone, named
/// `toml_record_text`.
#[verifier::external_body]
fn render_record(
    section: &str,
    first: &str,
    first_items: Vec<String>,
    second: &str,
    second_items: Vec<String>,
) -> (r: Result<String, toml::ser::Error>)
    ensures
        match r {
            Ok(text) => toml_record_text(
                section@,
                first@,
                texts(first_items@),
                second@,
                texts(second_items@),
            ) == Some(text@),
            Err(_) => toml_record_text(
                section@,
                first@,
                texts(first_items@),
                second@,
                texts(second_items@),
            ) is None,
        },
{
    let mut fields = toml::Table::new();
    fields.insert(first.to_string(), toml::Value::from(first_items));
    fields.insert(second.to_string(), toml::Value::from(second_items));
    let mut doc = toml::Table::new();
    doc.insert(section.to_string(), toml::Value::Table(fields));
    toml::to_string_pretty(&doc)
}

/// Calls `rand::random::<u8>()`, which draws from the thread's
/// cryptographically secure generator.
///
/// Trusted, and nothing is claimed of the byte: any value may come back.
#[verifier::external_body]
fn random_byte() -> u8 {
    rand::random::<u8>()
}

/// Draws `len` random bytes.
fn random_bytes(len: usize) -> (bytes: Vec<u8>)
    ensures
        bytes@.len() == len,
{
    let mut bytes: Vec<u8> = Vec::new();
    let mut i: usize = 0;
    while i < len
        invariant
            i <= len,
            bytes@.len() == i,
        decreases len - i,
    {
        bytes.push(random_byte());
        i += 1;
    }
    bytes
}

/// What a parsed record gives: the material that the lists under `header`
/// and `key` write, or `None` where the text is no valid document, a list is
/// missing, a token writes no byte, or the key is empty.
pub open spec fn loaded(
    header: Option<Option<Seq<Seq<char>>>>,
    key: Option<Option<Seq<Seq<char>>>>,
) -> Option<(Seq<u8>, Seq<u8>)> {
    match (header, key) {
        (Some(Some(h)), Some(Some(k))) => material_from(h, k),
        _ => None,
    }
}

impl GuardConfig {
    /// Whether the material can drive the byte transform: the key is not
    /// empty.
    pub open spec fn wf(&self) -> bool {
        self.key@.len() > 0
    }

    /// Tells whether the key is non-empty.
    pub fn is_usable(&self) -> (r: bool)
        ensures
            r == self.wf(),
    {
        self.key.len() > 0
    }

    /// Whether this is the material `expected`; with `None`, never.
    pub open spec fn holds(&self, expected: Option<(Seq<u8>, Seq<u8>)>) -> bool {
        expected == Some((self.header@, self.key@))
    }

    /// Generates fresh material: `header_len` marker bytes and `key_len` key
    /// bytes, each drawn from the secure random source. Nothing but the two
    /// lengths is known of the outcome.
    pub fn generate(header_len: usize, key_len: usize) -> (config: GuardConfig)
        ensures
            config.header@.len() == header_len,
            config.key@.len() == key_len,
    {
        let header = random_bytes(header_len);
        let key = random_bytes(key_len);
        GuardConfig { header, key }
    }

    /// Builds the material from the two token lists of a record.
    ///
    /// Fails with `ConfigMalformed` where a token of either list writes no
    /// byte, or where the key comes out empty.
    pub fn from_tokens(header: &Vec<String>, key: &Vec<String>) -> (r: Result<
        GuardConfig,
        GuardError,
    >)
        ensures
            match r {
                Ok(config) => config.holds(material_from(texts(header@), texts(key@)))
                    && config.wf(),
                Err(e) => e == GuardError::ConfigMalformed && material_from(
                    texts(header@),
                    texts(key@),
                ) is None,
            },
    {
        let header_bytes = match deserialize(header) {
            Ok(bytes) => bytes,
            Err(e) => {
                return Err(e);
            },
        };
        let key_bytes = match deserialize(key) {
            Ok(bytes) => bytes,
            Err(e) => {
                return Err(e);
            },
        };
        if key_bytes.len() == 0 {
            return Err(GuardError::ConfigMalformed);
        }
        Ok(GuardConfig { header: header_bytes, key: key_bytes })
    }

    /// Loads the material from the text of a configuration record.
    ///
    /// The record is a structured document whose table `guard` holds the
    /// token lists `header` and `key`. Fails with `ConfigMalformed` where the
    /// text is no valid document, the table or one of the lists is missing,
    /// a token writes no byte, or the key is empty.
    pub fn load(content: &str) -> (r: Result<GuardConfig, GuardError>)
        ensures
            ({
                let header = toml_string_list(content@, "guard"@, "header"@);
                let key = toml_string_list(content@, "guard"@, "key"@);
                match r {
                    Ok(config) => config.holds(loaded(header, key)) && config.wf(),
                    Err(e) => e == GuardError::ConfigMalformed && loaded(header, key) is None,
                }
            }),
    {
        let header = match record_list(content, "guard", "header") {
            Ok(Some(tokens)) => tokens,
            Ok(None) => {
                return Err(GuardError::ConfigMalformed);
            },
            Err(_) => {
                return Err(GuardError::ConfigMalformed);
            },
        };
        let key = match record_list(content, "guard", "key") {
            Ok(Some(tokens)) => tokens,
            Ok(None) => {
                return Err(GuardError::ConfigMalformed);
            },
            Err(_) => {
                return Err(GuardError::ConfigMalformed);
            },
        };
        GuardConfig::from_tokens(&header, &key)
    }

    /// Renders the material as the text of a configuration record: the
    /// table `guard` with the token lists `header` and `key`.
    ///
    /// Fails with `ConfigUnwritable` where the serializer refuses the
    /// document.
    pub fn save(&self) -> (r: Result<String, GuardError>)
        ensures
            ({
                let text = toml_record_text(
                    "guard"@,
                    "header"@,
                    tokens_of(self.header@),
                    "key"@,
                    tokens_of(self.key@),
                );
                match r {
                    Ok(out) => text == Some(out@),
                    Err(e) => e == GuardError::ConfigUnwritable && text is None,
                }
            }),
    {
        let header = serialize(&self.header);
        let key = serialize(&self.key);
        match render_record("guard", "header", header, "key", key) {
            Ok(text) => Ok(text),
            Err(_) => Err(GuardError::ConfigUnwritable),
        }
    }

    /// Exports the material as Rust source text.
    pub fn to_rust_code(&self) -> (out: String)
        ensures
            out@ == rust_code(self.header@, self.key@),
    {
        let header_str = format_bytes_rust(self.header.as_slice());
        let key_str = format_bytes_rust(self.key.as_slice());
        let mut out = String::new();
        out.append("pub const ");
        out.append("HEADER");
        out.append(": &[u8] = &[");
        out.append("\n");
        out.append(header_str.as_str());
        out.append("];\n");
        out.append("\n");
        out.append("pub const ");
        out.append("KEY");
        out.append(": &[u8] = &[");
        out.append("\n");
        out.append(key_str.as_str());
        out.append("];\n");
        out
    }

    /// Exports the material as PHP source text.
    pub fn to_php_code(&self) -> (out: String)
        ensures
            out@ == php_code(self.header@, self.key@),
    {
        let header_str = format_bytes_php(self.header.as_slice());
        let key_str = format_bytes_php(self.key.as_slice());
        let mut out = String::new();
        out.append("const ");
        out.append("HEADER");
        out.append(" = [");
        out.append("\n");
        out.append(header_str.as_str());
        out.append("];\n");
        out.append("\n");
        out.append("const ");
        out.append("KEY");
        out.append(" = [");
        out.append("\n");
        out.append(key_str.as_str());
        out.append("];\n");
        out
    }
}

} // verus!
