//! Why exports of the secret material can be held against each other: an
//! export reads back as exactly the bytes it was rendered from, in either
//! syntax, so two exports agree in a field exactly when that field's bytes
//! are the same.

use vstd::prelude::*;
use crate::commands::{
    declared_bytes, find_from, first_failure, hex_list, lemma_until_comma, matches_at, part_bytes,
};
use crate::config::{
    array_rows, declaration, indent, lead, php_code, php_opening, rows_upto, rust_code,
    rust_opening,
};
use crate::error::ExportError;
use crate::text::{
    has_hex_prefix, hex_token, is_white_space, lemma_radix16_reads_digits, lower_digits,
    trim_start,
};

verus! {

/// Whether the character `c` occurs nowhere in `s`.
pub open spec fn lacks(s: Seq<char>, c: char) -> bool {
    forall|i: int| 0 <= i < s.len() ==> s[i] != c
}

/// Whether `s` is white space throughout.
pub open spec fn is_blank(s: Seq<char>) -> bool {
    forall|i: int| 0 <= i < s.len() ==> is_white_space(#[trigger] s[i])
}

/// Whether `c` can occur in the rows of an exported array: a space, a line
/// break, a comma, the `x` of a token or a lower-case hexadecimal digit.
pub open spec fn is_row_char(c: char) -> bool {
    c == ' ' || c == '\n' || c == ',' || c == 'x' || '0' <= c <= '9' || 'a' <= c <= 'f'
}

/// Whether every character of `s` can occur in the rows of an exported
/// array.
pub open spec fn is_row_text(s: Seq<char>) -> bool {
    forall|i: int| 0 <= i < s.len() ==> is_row_char(#[trigger] s[i])
}

/// A match at `j` puts each character of the needle into the hay.
proof fn lemma_match_chars(hay: Seq<char>, needle: Seq<char>, j: int, k: int)
    requires
        matches_at(hay, needle, j),
        0 <= k < needle.len(),
    ensures
        hay[j + k] == needle[k],
{
}

/// The search finds `at` where `at` is a match and nothing between `from`
/// and `at` is.
proof fn lemma_find_from_at(hay: Seq<char>, needle: Seq<char>, from: int, at: int)
    requires
        0 <= from <= at,
        matches_at(hay, needle, at),
        forall|j: int| from <= j < at ==> !matches_at(hay, needle, j),
    ensures
        find_from(hay, needle, from) == Some(at),
    decreases at - from,
{
    if from < at {
        lemma_find_from_at(hay, needle, from + 1, at);
    }
}

/// The token of any byte is made of row characters.
proof fn lemma_token_is_row_text(b: u8)
    ensures
        is_row_text(hex_token(b)),
        hex_token(b).len() == 4,
        lacks(hex_token(b), ','),
        !is_white_space(hex_token(b)[0]),
        !is_white_space(hex_token(b)[3]),
{
}

/// The rendering of the first `k` bytes is made of row characters.
proof fn lemma_rows_upto_is_row_text(bytes: Seq<u8>, k: nat)
    requires
        k <= bytes.len(),
    ensures
        is_row_text(rows_upto(bytes, k)),
    decreases k,
{
    if k > 0 {
        lemma_rows_upto_is_row_text(bytes, (k - 1) as nat);
        lemma_token_is_row_text(bytes[k - 1]);
    }
}

/// The rows of an exported array are made of row characters.
proof fn lemma_rows_are_row_text(bytes: Seq<u8>)
    ensures
        is_row_text(array_rows(bytes)),
{
    lemma_rows_upto_is_row_text(bytes, bytes.len());
}

/// Leading white space is trimmed away up to the first character that is
/// none.
proof fn lemma_trim_start_blank(ws: Seq<char>, rest: Seq<char>)
    requires
        is_blank(ws),
        rest.len() == 0 || !is_white_space(rest[0]),
    ensures
        trim_start(ws + rest) == rest,
    decreases ws.len(),
{
    if ws.len() > 0 {
        assert((ws + rest).skip(1) =~= ws.skip(1) + rest);
        lemma_trim_start_blank(ws.skip(1), rest);
    }
}

/// A part that is white space throughout contributes nothing.
proof fn lemma_blank_part(ws: Seq<char>)
    requires
        is_blank(ws),
    ensures
        part_bytes(ws) == Seq::<u8>::empty(),
{
    lemma_trim_start_blank(ws, Seq::<char>::empty());
}

/// A part that is white space and then the token of `b` contributes `b`.
proof fn lemma_token_part(ws: Seq<char>, b: u8)
    requires
        is_blank(ws),
    ensures
        part_bytes(ws + hex_token(b)) == seq![b],
{
    let token = hex_token(b);
    lemma_token_is_row_text(b);
    lemma_trim_start_blank(ws, token);
    assert(has_hex_prefix(token));
    lemma_radix16_reads_digits(lower_digits(), b);
}

/// A list that is a part without commas, a comma and a rest reads as the
/// part's contribution followed by what the rest reads as.
proof fn lemma_hex_list_cons(part: Seq<char>, rest: Seq<char>)
    requires
        lacks(part, ','),
    ensures
        hex_list(part + seq![','] + rest) == part_bytes(part) + hex_list(rest),
{
    let s = part + seq![','] + rest;
    let k = part.len() as int;
    assert forall|j: int| 0 <= j < k implies s[j] != ',' by {
        assert(s[j] == part[j]);
    }
    lemma_until_comma(s, k);
    assert(s.take(k) =~= part);
    assert(s.skip(k + 1) =~= rest);
}

/// A list without commas is a single part.
proof fn lemma_hex_list_single(part: Seq<char>)
    requires
        lacks(part, ','),
    ensures
        hex_list(part) == part_bytes(part),
{
    lemma_until_comma(part, part.len() as int);
}

/// What stands in front of a token is white space without a comma.
proof fn lemma_lead_is_blank(i: int)
    ensures
        is_blank(lead(i)),
        lacks(lead(i), ','),
{
}

/// White space, the rendering of the first `k` bytes and a rest read as
/// those bytes followed by what the rest reads as.
proof fn lemma_rows_read(ws: Seq<char>, bytes: Seq<u8>, k: nat, rest: Seq<char>)
    requires
        1 <= k <= bytes.len(),
        is_blank(ws),
        lacks(ws, ','),
    ensures
        hex_list(ws + rows_upto(bytes, k) + rest) == bytes.take(k as int) + hex_list(rest),
    decreases k,
{
    let b = bytes[k - 1];
    let token = hex_token(b);
    lemma_token_is_row_text(b);
    lemma_lead_is_blank(k - 1);
    if k == 1 {
        let front = ws + lead(0);
        let part = front + token;
        assert(is_blank(front));
        assert(lacks(part, ',')) by {
            assert forall|i: int| 0 <= i < ws.len() implies part[i] != ',' by {
                assert(part[i] == ws[i]);
            }
        }
        lemma_token_part(front, b);
        lemma_hex_list_cons(part, rest);
        assert(rows_upto(bytes, 0) =~= Seq::<char>::empty());
        assert(ws + rows_upto(bytes, 1) + rest =~= part + seq![','] + rest);
        assert(bytes.take(1) =~= seq![b]);
    } else {
        let part = lead(k - 1) + token;
        let longer = part + seq![','] + rest;
        assert(lacks(part, ','));
        lemma_token_part(lead(k - 1), b);
        lemma_hex_list_cons(part, rest);
        lemma_rows_read(ws, bytes, (k - 1) as nat, longer);
        assert(ws + rows_upto(bytes, k) + rest =~= ws + rows_upto(bytes, (k - 1) as nat) + longer);
        assert(bytes.take(k - 1) + (seq![b] + hex_list(rest)) =~= bytes.take(k as int) + hex_list(
            rest,
        ));
    }
}

/// A line break and the rows of an exported array read as the array's
/// bytes.
proof fn lemma_body_reads(bytes: Seq<u8>)
    ensures
        hex_list(seq!['\n'] + array_rows(bytes)) == bytes,
{
    let nl = seq!['\n'];
    let none = Seq::<char>::empty();
    if bytes.len() == 0 {
        let body = nl + indent();
        lemma_hex_list_single(body);
        lemma_blank_part(body);
        assert(bytes =~= Seq::<u8>::empty());
    } else {
        lemma_hex_list_single(none);
        lemma_blank_part(none);
        lemma_rows_read(nl, bytes, bytes.len(), none);
        assert(nl + array_rows(bytes) + none =~= nl + array_rows(bytes));
        assert(bytes.take(bytes.len() as int) + Seq::<u8>::empty() =~= bytes);
    }
}

/// The text `pre`, a declaration of `bytes` under `opening`, and `post`.
pub open spec fn framed(pre: Seq<char>, opening: Seq<char>, bytes: Seq<u8>, post: Seq<char>) -> Seq<
    char,
> {
    pre + opening + "\n"@ + array_rows(bytes) + "];"@ + post
}

/// A declaration reads back as its bytes wherever its opening holds no
/// semicolon and does not already stand somewhere in front of it.
proof fn lemma_declaration_reads(
    pre: Seq<char>,
    opening: Seq<char>,
    bytes: Seq<u8>,
    post: Seq<char>,
)
    requires
        lacks(opening, ';'),
        forall|j: int|
            0 <= j < pre.len() ==> !matches_at(framed(pre, opening, bytes, post), opening, j),
    ensures
        declared_bytes(framed(pre, opening, bytes, post), opening) == Ok::<Seq<u8>, ExportError>(
            bytes,
        ),
{
    reveal_strlit("\n");
    reveal_strlit("];");
    let text = framed(pre, opening, bytes, post);
    let rows = array_rows(bytes);
    let start = pre.len() as int;
    let inner = start + opening.len();
    let end = inner + 1 + rows.len();
    lemma_rows_are_row_text(bytes);

    lemma_find_from_at(text, opening, 0, start);

    assert forall|j: int| start <= j < end implies !matches_at(text, "];"@, j) by {
        if matches_at(text, "];"@, j) {
            lemma_match_chars(text, "];"@, j, 1);
        }
    }
    lemma_find_from_at(text, "];"@, start, end);

    assert(text.subrange(inner, end) =~= seq!['\n'] + rows);
    lemma_body_reads(bytes);
}

/// What the four openings are made of.
proof fn lemma_openings()
    ensures
        lacks(rust_opening("HEADER"@), ';'),
        lacks(rust_opening("KEY"@), ';'),
        lacks(php_opening("HEADER"@), ';'),
        lacks(php_opening("KEY"@), ';'),
        rust_opening("HEADER"@).len() == 28,
        rust_opening("KEY"@).len() == 25,
        php_opening("HEADER"@).len() == 16,
        php_opening("KEY"@).len() == 13,
        rust_opening("HEADER"@)[10] == 'H',
        rust_opening("KEY"@)[0] == 'p',
        rust_opening("KEY"@)[10] == 'K',
        forall|i: int| 1 <= i < 28 ==> rust_opening("HEADER"@)[i] != 'p',
        php_opening("HEADER"@)[6] == 'H',
        php_opening("KEY"@)[0] == 'c',
        php_opening("KEY"@)[1] == 'o',
        php_opening("KEY"@)[6] == 'K',
        forall|i: int| 0 <= i < 16 && i != 1 ==> php_opening("HEADER"@)[i] != 'o',
{
    reveal_strlit("pub const ");
    reveal_strlit("const ");
    reveal_strlit("HEADER");
    reveal_strlit("KEY");
    reveal_strlit(": &[u8] = &[");
    reveal_strlit(" = [");
}

/// The character at `i` of a declaration followed by a line break: one of
/// the opening, a row character, or one of `]`, `;` and a line break.
proof fn lemma_declaration_chars(opening: Seq<char>, bytes: Seq<u8>, i: int)
    requires
        0 <= i < declaration(opening, bytes).len() + 1,
    ensures
        i < opening.len() ==> (declaration(opening, bytes) + "\n"@)[i] == opening[i],
        i >= opening.len() ==> {
            let c = (declaration(opening, bytes) + "\n"@)[i];
            is_row_char(c) || c == ']' || c == ';'
        },
{
    reveal_strlit("\n");
    reveal_strlit("];\n");
    lemma_rows_are_row_text(bytes);
    let rows = array_rows(bytes);
    let inner = opening.len() as int;
    if inner < i < inner + 1 + rows.len() {
        assert(is_row_char(rows[i - inner - 1]));
    }
}

/// In an export in Rust syntax, the opening of the key's declaration stands
/// nowhere in front of that declaration.
proof fn lemma_rust_key_opening_is_new(header: Seq<u8>, text: Seq<char>, j: int)
    requires
        0 <= j < declaration(rust_opening("HEADER"@), header).len() + 1,
        text.len() >= declaration(rust_opening("HEADER"@), header).len() + 1 + 25,
        forall|i: int|
            0 <= i < declaration(rust_opening("HEADER"@), header).len() + 1 ==> text[i] == (
            declaration(rust_opening("HEADER"@), header) + "\n"@)[i],
    ensures
        !matches_at(text, rust_opening("KEY"@), j),
{
    lemma_openings();
    let first = rust_opening("HEADER"@);
    let second = rust_opening("KEY"@);
    if matches_at(text, second, j) {
        lemma_match_chars(text, second, j, 0);
        lemma_declaration_chars(first, header, j);
        lemma_match_chars(text, second, 0, 10);
        lemma_declaration_chars(first, header, 10);
    }
}

/// An export in Rust syntax reads back as the marker and the key that it
/// was rendered from.
pub proof fn lemma_rust_export_reads_back(header: Seq<u8>, key: Seq<u8>)
    ensures
        declared_bytes(rust_code(header, key), rust_opening("HEADER"@)) == Ok::<
            Seq<u8>,
            ExportError,
        >(header),
        declared_bytes(rust_code(header, key), rust_opening("KEY"@)) == Ok::<Seq<u8>, ExportError>(
            key,
        ),
{
    let text = rust_code(header, key);
    let first = rust_opening("HEADER"@);
    let second = rust_opening("KEY"@);
    let none = Seq::<char>::empty();
    let after = "\n"@ + "\n"@ + declaration(second, key);
    let pre = declaration(first, header) + "\n"@;
    assert(text =~= framed(none, first, header, after) && text =~= framed(
        pre,
        second,
        key,
        "\n"@,
    )) by {
        reveal_strlit("\n");
        reveal_strlit("];");
        reveal_strlit("];\n");
    }
    lemma_openings();
    lemma_declaration_reads(none, first, header, after);
    assert forall|j: int| 0 <= j < pre.len() implies !matches_at(text, second, j) by {
        reveal_strlit("\n");
        lemma_rust_key_opening_is_new(header, text, j);
    }
    lemma_declaration_reads(pre, second, key, "\n"@);
}

/// In an export in PHP syntax, the opening of the key's declaration stands
/// nowhere in front of that declaration.
proof fn lemma_php_key_opening_is_new(header: Seq<u8>, text: Seq<char>, j: int)
    requires
        0 <= j < declaration(php_opening("HEADER"@), header).len() + 1,
        text.len() >= declaration(php_opening("HEADER"@), header).len() + 1 + 13,
        forall|i: int|
            0 <= i < declaration(php_opening("HEADER"@), header).len() + 1 ==> text[i] == (
            declaration(php_opening("HEADER"@), header) + "\n"@)[i],
        text[declaration(php_opening("HEADER"@), header).len() as int + 1] == 'c',
    ensures
        !matches_at(text, php_opening("KEY"@), j),
{
    lemma_openings();
    let first = php_opening("HEADER"@);
    let second = php_opening("KEY"@);
    let pre_len = declaration(first, header).len() + 1;
    if matches_at(text, second, j) {
        lemma_match_chars(text, second, j, 1);
        if j + 1 < pre_len {
            lemma_declaration_chars(first, header, j + 1);
            lemma_match_chars(text, second, 0, 6);
            lemma_declaration_chars(first, header, 6);
        }
    }
}

/// An export in PHP syntax reads back as the marker and the key that it was
/// rendered from.
pub proof fn lemma_php_export_reads_back(header: Seq<u8>, key: Seq<u8>)
    ensures
        declared_bytes(php_code(header, key), php_opening("HEADER"@)) == Ok::<Seq<u8>, ExportError>(
            header,
        ),
        declared_bytes(php_code(header, key), php_opening("KEY"@)) == Ok::<Seq<u8>, ExportError>(
            key,
        ),
{
    let text = php_code(header, key);
    let first = php_opening("HEADER"@);
    let second = php_opening("KEY"@);
    let none = Seq::<char>::empty();
    let after = "\n"@ + "\n"@ + declaration(second, key);
    let pre = declaration(first, header) + "\n"@;
    assert(text =~= framed(none, first, header, after) && text =~= framed(
        pre,
        second,
        key,
        "\n"@,
    )) by {
        reveal_strlit("\n");
        reveal_strlit("];");
        reveal_strlit("];\n");
    }
    lemma_openings();
    lemma_declaration_reads(none, first, header, after);
    assert forall|j: int| 0 <= j < pre.len() implies !matches_at(text, second, j) by {
        reveal_strlit("\n");
        lemma_php_key_opening_is_new(header, text, j);
    }
    lemma_declaration_reads(pre, second, key, "\n"@);
}

/// Checking the Rust export of one material against the PHP export of
/// another reads all four fields, and finds the markers equal exactly when
/// the two materials have the same marker, and the keys equal exactly when
/// they have the same key. In particular the two exports of one material
/// agree in full, and changing a byte of either field in one export makes
/// that field, and no other, disagree.
pub proof fn lemma_exports_agree_exactly(
    rust_header: Seq<u8>,
    rust_key: Seq<u8>,
    php_header: Seq<u8>,
    php_key: Seq<u8>,
)
    ensures
        ({
            let rust = rust_code(rust_header, rust_key);
            let php = php_code(php_header, php_key);
            let rh = declared_bytes(rust, rust_opening("HEADER"@));
            let rk = declared_bytes(rust, rust_opening("KEY"@));
            let ph = declared_bytes(php, php_opening("HEADER"@));
            let pk = declared_bytes(php, php_opening("KEY"@));
            &&& first_failure(rh, rk, ph, pk) is None
            &&& (rh->Ok_0 == ph->Ok_0) == (rust_header == php_header)
            &&& (rk->Ok_0 == pk->Ok_0) == (rust_key == php_key)
        }),
{
    lemma_rust_export_reads_back(rust_header, rust_key);
    lemma_php_export_reads_back(php_header, php_key);
}

} // verus!
