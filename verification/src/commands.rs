//! The decisions behind the operator's commands: packaging one file of a
//! batch, probing one, and checking two exports of the secret material
//! against each other.

use vstd::prelude::*;
use vstd::string::StringExecFns;
use crate::config::{php_opening, rust_opening, GuardConfig};
use crate::crypto::{is_encrypted, is_tagged};
use crate::error::{ExportError, Field, GuardError, ReadFailure, Syntax};
use crate::file_handler::{package_content, packaged};
use crate::text::{
    has_hex_prefix, hex_token_upper, parse_radix16, push_hex_token_upper, radix16_byte, to_chars,
    trim_range, trimmed,
};

verus! {

/// Whether `needle` stands in `hay` at index `i`.
pub open spec fn matches_at(hay: Seq<char>, needle: Seq<char>, i: int) -> bool {
    &&& 0 <= i
    &&& i + needle.len() <= hay.len()
    &&& hay.subrange(i, i + needle.len()) =~= needle
}

/// The first index at or after `from` at which `needle` stands in `hay`.
pub open spec fn find_from(hay: Seq<char>, needle: Seq<char>, from: int) -> Option<int>
    decreases hay.len() - from,
{
    if from < 0 || from + needle.len() > hay.len() {
        None
    } else if matches_at(hay, needle, from) {
        Some(from)
    } else {
        find_from(hay, needle, from + 1)
    }
}

/// The first index at which `needle` stands in `hay`.
pub open spec fn find_first(hay: Seq<char>, needle: Seq<char>) -> Option<int> {
    find_from(hay, needle, 0)
}

/// What `find_from` returns is a match with none before it, and it returns
/// nothing only where there is no match.
pub proof fn lemma_find_from_is_first(hay: Seq<char>, needle: Seq<char>, from: int)
    requires
        0 <= from,
    ensures
        match find_from(hay, needle, from) {
            Some(i) => from <= i && matches_at(hay, needle, i) && forall|j: int|
                from <= j < i ==> !matches_at(hay, needle, j),
            None => forall|j: int| from <= j ==> !matches_at(hay, needle, j),
        },
    decreases hay.len() - from,
{
    if from + needle.len() <= hay.len() && !matches_at(hay, needle, from) {
        lemma_find_from_is_first(hay, needle, from + 1);
    }
}

/// Tells whether `needle` stands in `hay` at index `i`.
fn matches_here(hay: &[char], needle: &[char], i: usize) -> (r: bool)
    requires
        i + needle@.len() <= hay@.len(),
    ensures
        r == matches_at(hay@, needle@, i as int),
{
    let n = needle.len();
    let total = hay.len();
    let mut k: usize = 0;
    while k < n
        invariant
            n == needle@.len(),
            total == hay@.len(),
            i + n <= total,
            k <= n,
            forall|j: int| 0 <= j < k ==> hay@[i + j] == needle@[j],
        decreases n - k,
    {
        if hay[i + k] != needle[k] {
            return false;
        }
        k += 1;
    }
    true
}

/// Finds the first index at or after `from` at which `needle` stands in
/// `hay`.
pub fn find(hay: &[char], needle: &[char], from: usize) -> (found: Option<usize>)
    ensures
        match found {
            Some(i) => find_from(hay@, needle@, from as int) == Some(i as int),
            None => find_from(hay@, needle@, from as int) is None,
        },
{
    if needle.len() > hay.len() {
        return None;
    }
    let last = hay.len() - needle.len();
    let mut i: usize = from;
    while i <= last
        invariant
            last == hay@.len() - needle@.len(),
            from <= i,
            find_from(hay@, needle@, from as int) == find_from(hay@, needle@, i as int),
        decreases last + 1 - i,
    {
        if matches_here(hay, needle, i) {
            return Some(i);
        }
        if i == last {
            return None;
        }
        i += 1;
    }
    None
}

/// How many characters stand before the first comma of `s`; its whole
/// length where it holds no comma.
pub open spec fn until_comma(s: Seq<char>) -> nat
    decreases s.len(),
{
    if s.len() == 0 || s[0] == ',' {
        0
    } else {
        1 + until_comma(s.skip(1))
    }
}

/// The bytes that one comma-separated part contributes: one byte or none.
///
/// The part is taken without the white space around it. Where it starts
/// with `0x` or `0X` and what follows writes a byte in radix 16, that byte
/// is the contribution. Any other part is no byte literal and is passed
/// over: one without the prefix, one with nothing after it, and one whose
/// digits write no byte.
pub open spec fn part_bytes(part: Seq<char>) -> Seq<u8> {
    let t = trimmed(part);
    if has_hex_prefix(t) {
        match radix16_byte(t.skip(2)) {
            Some(b) => seq![b],
            None => Seq::empty(),
        }
    } else {
        Seq::empty()
    }
}

/// The bytes written in a comma-separated list: the contributions of its
/// parts, in order.
pub open spec fn hex_list(s: Seq<char>) -> Seq<u8>
    decreases s.len(),
{
    let k = until_comma(s) as int;
    if k >= s.len() {
        part_bytes(s)
    } else {
        part_bytes(s.take(k)) + hex_list(s.skip(k + 1))
    }
}

/// The first part of `s` ends at `k` when no comma stands before `k` and
/// `k` is a comma or the end.
pub proof fn lemma_until_comma(s: Seq<char>, k: int)
    requires
        0 <= k <= s.len(),
        forall|j: int| 0 <= j < k ==> s[j] != ',',
        k == s.len() || s[k] == ',',
    ensures
        until_comma(s) == k,
    decreases k,
{
    if k > 0 {
        lemma_until_comma(s.skip(1), k - 1);
    }
}

/// Reads the part `s[from..to]`: the byte it writes, or nothing where it is
/// passed over.
fn read_part(s: &[char], from: usize, to: usize) -> (r: Option<u8>)
    requires
        from <= to <= s@.len(),
    ensures
        match r {
            Some(b) => part_bytes(s@.subrange(from as int, to as int)) == seq![b],
            None => part_bytes(s@.subrange(from as int, to as int)) == Seq::<u8>::empty(),
        },
{
    let (a, b) = trim_range(s, from, to);
    let ghost t = s@.subrange(a as int, b as int);
    if b - a >= 2 && s[a] == '0' && (s[a + 1] == 'x' || s[a + 1] == 'X') {
        assert(t.skip(2) =~= s@.subrange(a + 2, b as int));
        parse_radix16(s, a + 2, b)
    } else {
        None
    }
}

/// Reads the comma-separated list `s[from..to]`.
pub fn read_hex_list(s: &[char], from: usize, to: usize) -> (bytes: Vec<u8>)
    requires
        from <= to <= s@.len(),
    ensures
        bytes@ == hex_list(s@.subrange(from as int, to as int)),
{
    let mut bytes: Vec<u8> = Vec::new();
    let mut start: usize = from;
    let mut i: usize = from;
    let ghost whole = s@.subrange(from as int, to as int);
    while i < to
        invariant
            from <= start <= i <= to,
            to <= s@.len(),
            whole == s@.subrange(from as int, to as int),
            forall|j: int| start <= j < i ==> s@[j] != ',',
            hex_list(whole) == bytes@ + hex_list(s@.subrange(start as int, to as int)),
        decreases to - i,
    {
        if s[i] == ',' {
            let ghost rest = s@.subrange(start as int, to as int);
            proof {
                lemma_until_comma(rest, i - start);
                assert(rest.take(i - start) =~= s@.subrange(start as int, i as int));
                assert(rest.skip(i - start + 1) =~= s@.subrange(i + 1, to as int));
            }
            let ghost before = bytes@;
            let ghost tail = hex_list(s@.subrange(i + 1, to as int));
            match read_part(s, start, i) {
                Some(b) => {
                    bytes.push(b);
                    assert(before + (seq![b] + tail) =~= bytes@ + tail);
                },
                None => {
                    assert(before + (Seq::<u8>::empty() + tail) =~= bytes@ + tail);
                },
            }
            start = i + 1;
        }
        i += 1;
    }
    proof {
        lemma_until_comma(s@.subrange(start as int, to as int), to - start);
    }
    let ghost before = bytes@;
    match read_part(s, start, to) {
        Some(b) => {
            bytes.push(b);
            assert(bytes@ =~= before + seq![b]);
        },
        None => {
            assert(bytes@ =~= before + Seq::<u8>::empty());
        },
    }
    bytes
}

/// Reads a comma-separated list of byte literals.
///
/// Each part is trimmed. A part that starts with `0x` or `0X` and goes on
/// to write a byte in radix 16 gives that byte; any other part is passed
/// over. Every text is read: the result is never an error.
pub fn parse_hex_bytes(s: &str) -> (r: Result<Vec<u8>, ExportError>)
    ensures
        r is Ok,
        r->Ok_0@ == hex_list(s@),
{
    let chars = to_chars(s);
    assert(chars@.subrange(0, chars@.len() as int) =~= s@);
    Ok(read_hex_list(chars.as_slice(), 0, chars.len()))
}

/// The bytes of the array that `opening` declares in `text`.
///
/// The declaration is the first place where `opening` stands in `text`. Its
/// array runs from the end of the opening to the first `];` found from the
/// start of the declaration on, and is read as a list of byte literals. A
/// `];` inside the opening itself leaves no array: that is reported like a
/// missing one.
pub open spec fn declared_bytes(text: Seq<char>, opening: Seq<char>) -> Result<
    Seq<u8>,
    ExportError,
> {
    match find_first(text, opening) {
        None => Err(ExportError::DefinitionNotFound),
        Some(start) => match find_from(text, "];"@, start) {
            None => Err(ExportError::Unterminated),
            Some(end) => if end < start + opening.len() {
                Err(ExportError::Unterminated)
            } else {
                Ok(hex_list(text.subrange(start + opening.len(), end)))
            },
        },
    }
}

/// Whether an executable result is the specified one.
pub open spec fn reads_as(r: Result<Vec<u8>, ExportError>, expected: Result<Seq<u8>, ExportError>) -> bool {
    match r {
        Ok(bytes) => expected == Ok::<Seq<u8>, ExportError>(bytes@),
        Err(e) => expected == Err::<Seq<u8>, ExportError>(e),
    }
}

/// Reads the array that `opening` declares in `text`.
pub fn read_declaration(text: &[char], opening: &[char]) -> (r: Result<Vec<u8>, ExportError>)
    ensures
        reads_as(r, declared_bytes(text@, opening@)),
{
    let closing = to_chars("];");
    let start = match find(text, opening, 0) {
        Some(i) => i,
        None => {
            return Err(ExportError::DefinitionNotFound);
        },
    };
    let end = match find(text, closing.as_slice(), start) {
        Some(i) => i,
        None => {
            return Err(ExportError::Unterminated);
        },
    };
    proof {
        lemma_find_from_is_first(text@, opening@, 0);
        lemma_find_from_is_first(text@, closing@, start as int);
    }
    if end - start < opening.len() {
        return Err(ExportError::Unterminated);
    }
    Ok(read_hex_list(text, start + opening.len(), end))
}

/// Reads the bytes of the constant `name` from an export in Rust syntax.
///
/// Fails with `DefinitionNotFound` where the text does not open a
/// declaration of `name` and with `Unterminated` where no `];` closes it.
/// A token of the array that is no byte literal is passed over.
pub fn parse_rust_bytes(content: &str, name: &str) -> (r: Result<Vec<u8>, ExportError>)
    ensures
        reads_as(r, declared_bytes(content@, rust_opening(name@))),
{
    let mut opening = String::new();
    opening.append("pub const ");
    opening.append(name);
    opening.append(": &[u8] = &[");
    let text = to_chars(content);
    let pattern = to_chars(opening.as_str());
    read_declaration(text.as_slice(), pattern.as_slice())
}

/// Reads the bytes of the constant `name` from an export in PHP syntax.
///
/// Fails as [`parse_rust_bytes`] does.
pub fn parse_php_bytes(content: &str, name: &str) -> (r: Result<Vec<u8>, ExportError>)
    ensures
        reads_as(r, declared_bytes(content@, php_opening(name@))),
{
    let mut opening = String::new();
    opening.append("const ");
    opening.append(name);
    opening.append(" = [");
    let text = to_chars(content);
    let pattern = to_chars(opening.as_str());
    read_declaration(text.as_slice(), pattern.as_slice())
}

/// How many bytes a preview shows at most.
pub const PREVIEW_BYTES: usize = 8;

/// The upper-case tokens of the first `k` bytes, separated by a comma and a
/// space.
pub open spec fn preview_upto(bytes: Seq<u8>, k: nat) -> Seq<char>
    decreases k,
{
    if k == 0 {
        Seq::empty()
    } else if k == 1 {
        hex_token_upper(bytes[0])
    } else {
        preview_upto(bytes, (k - 1) as nat) + seq![',', ' '] + hex_token_upper(bytes[k - 1])
    }
}

/// The preview of a byte sequence: its first eight bytes at most.
pub open spec fn preview_text(bytes: Seq<u8>) -> Seq<char> {
    if bytes.len() <= PREVIEW_BYTES {
        preview_upto(bytes, bytes.len())
    } else {
        preview_upto(bytes, PREVIEW_BYTES as nat)
    }
}

/// Renders a short preview of `bytes`, so that a divergence can be looked
/// into without the whole secret being shown.
pub fn format_bytes_preview(bytes: &[u8]) -> (out: String)
    ensures
        out@ == preview_text(bytes@),
{
    let shown = if bytes.len() <= PREVIEW_BYTES {
        bytes.len()
    } else {
        PREVIEW_BYTES
    };
    let mut out = String::new();
    let mut i: usize = 0;
    while i < shown
        invariant
            i <= shown <= bytes@.len(),
            out@ == preview_upto(bytes@, i as nat),
        decreases shown - i,
    {
        proof {
            reveal_strlit(", ");
        }
        if i > 0 {
            out.append(", ");
        }
        push_hex_token_upper(&mut out, bytes[i]);
        assert(out@ =~= preview_upto(bytes@, (i + 1) as nat));
        i += 1;
    }
    out
}

/// Tells whether two byte sequences are equal, length included.
fn same_bytes(a: &[u8], b: &[u8]) -> (r: bool)
    ensures
        r == (a@ == b@),
{
    if a.len() != b.len() {
        return false;
    }
    let n = a.len();
    let mut i: usize = 0;
    while i < n
        invariant
            n == a@.len(),
            n == b@.len(),
            i <= n,
            forall|j: int| 0 <= j < i ==> a@[j] == b@[j],
        decreases n - i,
    {
        if a[i] != b[i] {
            return false;
        }
        i += 1;
    }
    assert(a@ =~= b@);
    true
}

/// How one field of the secret material compares across two exports.
#[derive(Debug, Clone)]
pub struct FieldCheck {
    /// How many bytes the Rust export declares.
    pub rust_len: usize,
    /// How many bytes the PHP export declares.
    pub php_len: usize,
    /// A preview of the bytes in the Rust export.
    pub rust_preview: String,
    /// A preview of the bytes in the PHP export.
    pub php_preview: String,
    /// Whether the two exports declare the same bytes, length included.
    pub consistent: bool,
}

/// The outcome of checking two exports against each other, field by field.
#[derive(Debug, Clone)]
pub struct VerifyReport {
    pub header: FieldCheck,
    pub key: FieldCheck,
}

impl FieldCheck {
    /// Whether this is the comparison of `rust` with `php`.
    pub open spec fn describes(&self, rust: Seq<u8>, php: Seq<u8>) -> bool {
        &&& self.rust_len == rust.len()
        &&& self.php_len == php.len()
        &&& self.rust_preview@ == preview_text(rust)
        &&& self.php_preview@ == preview_text(php)
        &&& self.consistent == (rust == php)
    }

    /// Compares the bytes that two exports declare for one field.
    pub fn compare(rust: &[u8], php: &[u8]) -> (check: FieldCheck)
        ensures
            check.describes(rust@, php@),
    {
        FieldCheck {
            rust_len: rust.len(),
            php_len: php.len(),
            rust_preview: format_bytes_preview(rust),
            php_preview: format_bytes_preview(php),
            consistent: same_bytes(rust, php),
        }
    }
}

impl VerifyReport {
    /// Whether both fields agree.
    pub open spec fn agrees(&self) -> bool {
        self.header.consistent && self.key.consistent
    }

    /// Tells whether the two exports agree on both the marker and the key.
    pub fn passed(&self) -> (r: bool)
        ensures
            r == self.agrees(),
    {
        self.header.consistent && self.key.consistent
    }

    /// The first field on which the two exports diverge, the marker before
    /// the key; `None` where they agree.
    pub open spec fn diverging(&self) -> Option<Field> {
        if !self.header.consistent {
            Some(Field::Header)
        } else if !self.key.consistent {
            Some(Field::Key)
        } else {
            None
        }
    }

    /// The report as a result: `Ok` where both fields agree, and otherwise
    /// `ConsistencyMismatch` naming the first field that diverges. The
    /// report itself still says of each field whether it agrees, with a
    /// preview of either side.
    pub fn outcome(&self) -> (r: Result<(), GuardError>)
        ensures
            r is Ok == self.agrees(),
            match self.diverging() {
                Some(field) => r == Err::<(), GuardError>(GuardError::ConsistencyMismatch(field)),
                None => r == Ok::<(), GuardError>(()),
            },
    {
        if !self.header.consistent {
            Err(GuardError::ConsistencyMismatch(Field::Header))
        } else if !self.key.consistent {
            Err(GuardError::ConsistencyMismatch(Field::Key))
        } else {
            Ok(())
        }
    }
}

/// The first failure among the four readings of a check, taken in the
/// order Rust marker, Rust key, PHP marker, PHP key; `None` where all four
/// succeed.
pub open spec fn first_failure(
    rust_header: Result<Seq<u8>, ExportError>,
    rust_key: Result<Seq<u8>, ExportError>,
    php_header: Result<Seq<u8>, ExportError>,
    php_key: Result<Seq<u8>, ExportError>,
) -> Option<ReadFailure> {
    if rust_header is Err {
        Some(ReadFailure { syntax: Syntax::Rust, field: Field::Header, cause: rust_header->Err_0 })
    } else if rust_key is Err {
        Some(ReadFailure { syntax: Syntax::Rust, field: Field::Key, cause: rust_key->Err_0 })
    } else if php_header is Err {
        Some(ReadFailure { syntax: Syntax::Php, field: Field::Header, cause: php_header->Err_0 })
    } else if php_key is Err {
        Some(ReadFailure { syntax: Syntax::Php, field: Field::Key, cause: php_key->Err_0 })
    } else {
        None
    }
}

/// Checks an export in Rust syntax against one in PHP syntax.
///
/// The marker and the key are read from each text and compared
/// independently. The texts are read in the order Rust marker, Rust key,
/// PHP marker, PHP key, and the first reading that fails is the error. Where
/// all four succeed, the report says for each field whether the two texts
/// declare the same bytes. Neither text is changed.
pub fn verify(rust_content: &str, php_content: &str) -> (r: Result<VerifyReport, ReadFailure>)
    ensures
        ({
            let rust_header = declared_bytes(rust_content@, rust_opening("HEADER"@));
            let rust_key = declared_bytes(rust_content@, rust_opening("KEY"@));
            let php_header = declared_bytes(php_content@, php_opening("HEADER"@));
            let php_key = declared_bytes(php_content@, php_opening("KEY"@));
            match r {
                Ok(report) => {
                    &&& first_failure(rust_header, rust_key, php_header, php_key) is None
                    &&& report.header.describes(rust_header->Ok_0, php_header->Ok_0)
                    &&& report.key.describes(rust_key->Ok_0, php_key->Ok_0)
                },
                Err(e) => first_failure(rust_header, rust_key, php_header, php_key) == Some(e),
            }
        }),
{
    let rust_header = match parse_rust_bytes(rust_content, "HEADER") {
        Ok(bytes) => bytes,
        Err(cause) => {
            return Err(ReadFailure { syntax: Syntax::Rust, field: Field::Header, cause });
        },
    };
    let rust_key = match parse_rust_bytes(rust_content, "KEY") {
        Ok(bytes) => bytes,
        Err(cause) => {
            return Err(ReadFailure { syntax: Syntax::Rust, field: Field::Key, cause });
        },
    };
    let php_header = match parse_php_bytes(php_content, "HEADER") {
        Ok(bytes) => bytes,
        Err(cause) => {
            return Err(ReadFailure { syntax: Syntax::Php, field: Field::Header, cause });
        },
    };
    let php_key = match parse_php_bytes(php_content, "KEY") {
        Ok(bytes) => bytes,
        Err(cause) => {
            return Err(ReadFailure { syntax: Syntax::Php, field: Field::Key, cause });
        },
    };
    Ok(
        VerifyReport {
            header: FieldCheck::compare(rust_header.as_slice(), php_header.as_slice()),
            key: FieldCheck::compare(rust_key.as_slice(), php_key.as_slice()),
        },
    )
}

/// Packages `content` under the material of `config`, without asking
/// whether it is tagged already.
pub fn encrypt_content_with_config(content: &[u8], config: &GuardConfig) -> (out: Vec<u8>)
    requires
        config.wf(),
    ensures
        out@ == packaged(content@, config.header@, config.key@),
{
    package_content(content, config.header.as_slice(), config.key.as_slice())
}

/// Decides what a batch does with one file: content that is tagged already
/// is skipped (`None`), any other content is packaged.
pub fn encrypt_single_file(content: &[u8], config: &GuardConfig) -> (out: Option<Vec<u8>>)
    requires
        config.wf(),
    ensures
        is_tagged(content@, config.header@) ==> out is None,
        !is_tagged(content@, config.header@) ==> out is Some && out->0@ == packaged(
            content@,
            config.header@,
            config.key@,
        ),
{
    if is_encrypted(content, config.header.as_slice()) {
        return None;
    }
    Some(encrypt_content_with_config(content, config))
}

/// Tells whether one file of a batch is tagged.
pub fn check_single_file(content: &[u8], config: &GuardConfig) -> (tagged: bool)
    ensures
        tagged == is_tagged(content@, config.header@),
{
    is_encrypted(content, config.header.as_slice())
}

/// `n + 1`, held at the largest value a counter can take.
pub open spec fn bumped(n: u64) -> u64 {
    if n < u64::MAX {
        (n + 1) as u64
    } else {
        n
    }
}

/// The running counts of a batch: how many files were seen and how many of
/// them were tagged already. A batch visits its files one after another and
/// stops at the first failure; the counts then cover the files before it.
#[derive(Debug, Clone, Copy, PartialEq, Eq, Structural)]
pub struct BatchTally {
    /// Files seen so far.
    pub seen: u64,
    /// Files among them that were found tagged.
    pub tagged: u64,
}

impl BatchTally {
    /// The counts before any file is seen.
    pub fn new() -> (tally: BatchTally)
        ensures
            tally.seen == 0,
            tally.tagged == 0,
    {
        BatchTally { seen: 0, tagged: 0 }
    }

    /// Counts one more file, found tagged or not.
    pub fn record(&mut self, was_tagged: bool)
        ensures
            final(self).seen == bumped(old(self).seen),
            final(self).tagged == if was_tagged {
                bumped(old(self).tagged)
            } else {
                old(self).tagged
            },
    {
        if self.seen < u64::MAX {
            self.seen = self.seen + 1;
        }
        if was_tagged && self.tagged < u64::MAX {
            self.tagged = self.tagged + 1;
        }
    }

    /// The files seen that were not tagged.
    pub fn untagged(&self) -> (n: u64)
        ensures
            n == if self.seen >= self.tagged {
                self.seen - self.tagged
            } else {
                0
            },
    {
        if self.seen >= self.tagged {
            self.seen - self.tagged
        } else {
            0
        }
    }
}

} // verus!
