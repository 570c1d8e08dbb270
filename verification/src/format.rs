//! The on-disk text format, specified as mathematical functions on
//! character sequences.
//!
//! Two shapes exist: the encrypted container object
//! (`salt_b64`/`kdf_iterations`/`kdf_memory_kib`/`blob_b64`) and the bare
//! legacy collection (`next_id`/`vault_items`).  A decoder tells them apart
//! by their first field name alone.
//!
//! The accepted profile is deliberately narrow: fields in their fixed
//! order, no unknown fields, whitespace allowed between tokens, and the
//! usual string escapes with `\u`-escapes limited to ASCII code points.
//! Every document this library writes, compact or pretty-printed, falls
//! inside it; a foreign writer that escapes non-ASCII characters as
//! `\uXXXX` does not.  The emitter writes the canonical form: fixed field
//! order and no whitespace between tokens (the base64 fields keep their
//! usual `=` padding).

use vstd::prelude::*;

use crate::vault::{StoreView, VaultView};

verus! {

pub open spec fn is_ws(c: char) -> bool {
    c == ' ' || c == '\n' || c == '\r' || c == '\t'
}

pub open spec fn is_digit(c: char) -> bool {
    48 <= c as u32 && c as u32 <= 57
}

pub open spec fn digit_val(c: char) -> int {
    c as u32 - 48
}

/// Value of a hexadecimal digit, or -1 for any other character.
pub open spec fn hex_char_val(c: char) -> int {
    if is_digit(c) {
        c as u32 - 48
    } else if 97 <= c as u32 && c as u32 <= 102 {
        c as u32 - 87
    } else if 65 <= c as u32 && c as u32 <= 70 {
        c as u32 - 55
    } else {
        -1
    }
}

/// Drop leading whitespace.
pub open spec fn skip_ws(s: Seq<char>) -> Seq<char>
    decreases s.len(),
{
    if s.len() > 0 && is_ws(s[0]) {
        skip_ws(s.skip(1))
    } else {
        s
    }
}

/// Expect the exact characters of `lit`; return the remainder.
pub open spec fn ps_lit(s: Seq<char>, lit: Seq<char>) -> Option<Seq<char>>
    decreases lit.len(),
{
    if lit.len() == 0 {
        Some(s)
    } else if s.len() > 0 && s[0] == lit[0] {
        ps_lit(s.skip(1), lit.skip(1))
    } else {
        None
    }
}

/// Skip whitespace, then expect `lit`.
pub open spec fn ps_tok(s: Seq<char>, lit: Seq<char>) -> Option<Seq<char>> {
    ps_lit(skip_ws(s), lit)
}

pub open spec fn str_cons(c: char, r: Option<(Seq<char>, Seq<char>)>) -> Option<
    (Seq<char>, Seq<char>),
> {
    match r {
        Some((t, rem)) => Some((seq![c] + t, rem)),
        None => None,
    }
}

/// Parse the body of a string literal, after its opening quote: unescaped
/// characters and the escapes `\" \\ \/ \n \r \t \b \f \uXXXX` (the latter
/// only for ASCII code points), up to the closing quote.
pub open spec fn ps_string_rest(s: Seq<char>) -> Option<(Seq<char>, Seq<char>)>
    decreases s.len(),
{
    if s.len() == 0 {
        None
    } else if s[0] == '"' {
        Some((Seq::empty(), s.skip(1)))
    } else if s[0] == '\\' {
        if s.len() < 2 {
            None
        } else {
            let e = s[1];
            if e == '"' || e == '\\' || e == '/' {
                str_cons(e, ps_string_rest(s.skip(2)))
            } else if e == 'n' {
                str_cons('\n', ps_string_rest(s.skip(2)))
            } else if e == 'r' {
                str_cons('\r', ps_string_rest(s.skip(2)))
            } else if e == 't' {
                str_cons('\t', ps_string_rest(s.skip(2)))
            } else if e == 'b' {
                str_cons(8u8 as char, ps_string_rest(s.skip(2)))
            } else if e == 'f' {
                str_cons(12u8 as char, ps_string_rest(s.skip(2)))
            } else if e == 'u' {
                if s.len() < 6 {
                    None
                } else {
                    let h0 = hex_char_val(s[2]);
                    let h1 = hex_char_val(s[3]);
                    let h2 = hex_char_val(s[4]);
                    let h3 = hex_char_val(s[5]);
                    let v = h0 * 4096 + h1 * 256 + h2 * 16 + h3;
                    if h0 >= 0 && h1 >= 0 && h2 >= 0 && h3 >= 0 && v < 128 {
                        str_cons((v as u8) as char, ps_string_rest(s.skip(6)))
                    } else {
                        None
                    }
                }
            } else {
                None
            }
        }
    } else if (s[0] as u32) < 32 {
        None
    } else {
        str_cons(s[0], ps_string_rest(s.skip(1)))
    }
}

/// Skip whitespace, then parse a quoted string.
pub open spec fn ps_str_tok(s: Seq<char>) -> Option<(Seq<char>, Seq<char>)> {
    let t = skip_ws(s);
    if t.len() > 0 && t[0] == '"' {
        ps_string_rest(t.skip(1))
    } else {
        None
    }
}

/// Number of leading decimal digits.
pub open spec fn digit_run(s: Seq<char>) -> int
    decreases s.len(),
{
    if s.len() > 0 && is_digit(s[0]) {
        1 + digit_run(s.skip(1))
    } else {
        0
    }
}

/// Value of a sequence of decimal digits, most significant first.
pub open spec fn digits_val(ds: Seq<char>) -> int
    decreases ds.len(),
{
    if ds.len() == 0 {
        0
    } else {
        digits_val(ds.drop_last()) * 10 + digit_val(ds.last())
    }
}

/// Parse an unsigned decimal number of at most 20 digits whose value fits
/// in 64 bits.
pub open spec fn ps_number(s: Seq<char>) -> Option<(int, Seq<char>)> {
    let k = digit_run(s);
    if k == 0 || k > 20 {
        None
    } else {
        let n = digits_val(s.take(k));
        if n > u64::MAX as int {
            None
        } else {
            Some((n, s.skip(k)))
        }
    }
}

/// Skip whitespace, then parse a number.
pub open spec fn ps_num_tok(s: Seq<char>) -> Option<(int, Seq<char>)> {
    ps_number(skip_ws(s))
}

/// Parse one record object, fields in their fixed order.
pub open spec fn ps_vault(s: Seq<char>) -> Option<(VaultView, Seq<char>)> {
    match ps_tok(s, "{"@) {
        None => None,
        Some(s1) => match ps_tok(s1, "\"id\""@) {
            None => None,
            Some(s2) => match ps_tok(s2, ":"@) {
                None => None,
                Some(s3) => match ps_num_tok(s3) {
                    None => None,
                    Some((id, s4)) => if id > usize::MAX as int {
                        None
                    } else {
                        match ps_tok(s4, ","@) {
                            None => None,
                            Some(s5) => match ps_tok(s5, "\"service\""@) {
                                None => None,
                                Some(s6) => match ps_tok(s6, ":"@) {
                                    None => None,
                                    Some(s7) => match ps_str_tok(s7) {
                                        None => None,
                                        Some((sv, s8)) => match ps_tok(s8, ","@) {
                                            None => None,
                                            Some(s9) => match ps_tok(s9, "\"username\""@) {
                                                None => None,
                                                Some(s10) => match ps_tok(s10, ":"@) {
                                                    None => None,
                                                    Some(s11) => match ps_str_tok(s11) {
                                                        None => None,
                                                        Some((un, s12)) => match ps_tok(
                                                            s12,
                                                            ","@,
                                                        ) {
                                                            None => None,
                                                            Some(s13) => match ps_tok(
                                                                s13,
                                                                "\"password\""@,
                                                            ) {
                                                                None => None,
                                                                Some(s14) => match ps_tok(
                                                                    s14,
                                                                    ":"@,
                                                                ) {
                                                                    None => None,
                                                                    Some(s15) => match ps_str_tok(
                                                                        s15,
                                                                    ) {
                                                                        None => None,
                                                                        Some((pw, s16)) => match ps_tok(
                                                                            s16,
                                                                            "}"@,
                                                                        ) {
                                                                            None => None,
                                                                            Some(s17) => Some(
                                                                                (
                                                                                    VaultView {
                                                                                        id: id,
                                                                                        service: sv,
                                                                                        username: un,
                                                                                        password: pw,
                                                                                    },
                                                                                    s17,
                                                                                ),
                                                                            ),
                                                                        },
                                                                    },
                                                                },
                                                            },
                                                        },
                                                    },
                                                },
                                            },
                                        },
                                    },
                                },
                            },
                        }
                    },
                },
            },
        },
    }
}

/// Parse the items of a record array, after its opening bracket.
pub open spec fn ps_vault_list(s: Seq<char>) -> Option<(Seq<VaultView>, Seq<char>)> {
    match ps_tok(s, "]"@) {
        Some(rem) => Some((Seq::empty(), rem)),
        None => ps_vault_list_items(s),
    }
}

/// Parse one or more comma-separated record objects, then the closing
/// bracket.
pub open spec fn ps_vault_list_items(s: Seq<char>) -> Option<(Seq<VaultView>, Seq<char>)>
    decreases s.len(),
    via ps_vault_list_items_dec
{
    match ps_vault(s) {
        None => None,
        Some((v, s1)) => {
            let t = skip_ws(s1);
            if t.len() > 0 && t[0] == ',' {
                match ps_vault_list_items(t.skip(1)) {
                    None => None,
                    Some((vs, s2)) => Some((seq![v] + vs, s2)),
                }
            } else {
                match ps_lit(t, "]"@) {
                    None => None,
                    Some(s2) => Some((seq![v], s2)),
                }
            }
        },
    }
}

#[via_fn]
proof fn ps_vault_list_items_dec(s: Seq<char>) {
    lemma_ps_vault_len(s);
    if ps_vault(s) is Some {
        let (v, s1) = ps_vault(s).unwrap();
        lemma_skip_ws_len(s1);
    }
}

/// Parse a whole bare collection document: the legacy unencrypted format.
pub open spec fn ps_store_text(s: Seq<char>) -> Option<StoreView> {
    match ps_tok(s, "{"@) {
        None => None,
        Some(s1) => match ps_tok(s1, "\"next_id\""@) {
            None => None,
            Some(s2) => match ps_tok(s2, ":"@) {
                None => None,
                Some(s3) => match ps_num_tok(s3) {
                    None => None,
                    Some((nid, s4)) => if nid > usize::MAX as int {
                        None
                    } else {
                        match ps_tok(s4, ","@) {
                            None => None,
                            Some(s5) => match ps_tok(s5, "\"vault_items\""@) {
                                None => None,
                                Some(s6) => match ps_tok(s6, ":"@) {
                                    None => None,
                                    Some(s7) => match ps_tok(s7, "["@) {
                                        None => None,
                                        Some(s8) => match ps_vault_list(s8) {
                                            None => None,
                                            Some((items, s9)) => match ps_tok(s9, "}"@) {
                                                None => None,
                                                Some(s10) => if skip_ws(s10).len() == 0 {
                                                    Some(StoreView { next_id: nid, items: items })
                                                } else {
                                                    None
                                                },
                                            },
                                        },
                                    },
                                },
                            },
                        }
                    },
                },
            },
        },
    }
}

/// The textual fields of a parsed container document.
#[verifier::ext_equal]
pub ghost struct ContainerText {
    pub salt_b64: Seq<char>,
    pub iterations: int,
    pub memory_kib: int,
    pub blob_b64: Seq<char>,
}

/// Parse a whole container document: the encrypted on-disk format.
pub open spec fn ps_container_text(s: Seq<char>) -> Option<ContainerText> {
    match ps_tok(s, "{"@) {
        None => None,
        Some(s1) => match ps_tok(s1, "\"salt_b64\""@) {
            None => None,
            Some(s2) => match ps_tok(s2, ":"@) {
                None => None,
                Some(s3) => match ps_str_tok(s3) {
                    None => None,
                    Some((salt, s4)) => match ps_tok(s4, ","@) {
                        None => None,
                        Some(s5) => match ps_tok(s5, "\"kdf_iterations\""@) {
                            None => None,
                            Some(s6) => match ps_tok(s6, ":"@) {
                                None => None,
                                Some(s7) => match ps_num_tok(s7) {
                                    None => None,
                                    Some((iters, s8)) => if iters > u32::MAX as int {
                                        None
                                    } else {
                                        match ps_tok(s8, ","@) {
                                            None => None,
                                            Some(s9) => match ps_tok(s9, "\"kdf_memory_kib\""@) {
                                                None => None,
                                                Some(s10) => match ps_tok(s10, ":"@) {
                                                    None => None,
                                                    Some(s11) => match ps_num_tok(s11) {
                                                        None => None,
                                                        Some((mem, s12)) => if mem > u32::MAX as int {
                                                            None
                                                        } else {
                                                            match ps_tok(s12, ","@) {
                                                                None => None,
                                                                Some(s13) => match ps_tok(
                                                                    s13,
                                                                    "\"blob_b64\""@,
                                                                ) {
                                                                    None => None,
                                                                    Some(s14) => match ps_tok(
                                                                        s14,
                                                                        ":"@,
                                                                    ) {
                                                                        None => None,
                                                                        Some(s15) => match ps_str_tok(
                                                                            s15,
                                                                        ) {
                                                                            None => None,
                                                                            Some((blob, s16)) => match ps_tok(
                                                                                s16,
                                                                                "}"@,
                                                                            ) {
                                                                                None => None,
                                                                                Some(s17) => if skip_ws(
                                                                                    s17,
                                                                                ).len() == 0 {
                                                                                    Some(
                                                                                        ContainerText {
                                                                                            salt_b64: salt,
                                                                                            iterations: iters,
                                                                                            memory_kib: mem,
                                                                                            blob_b64: blob,
                                                                                        },
                                                                                    )
                                                                                } else {
                                                                                    None
                                                                                },
                                                                            },
                                                                        },
                                                                    },
                                                                },
                                                            }
                                                        },
                                                    },
                                                },
                                            },
                                        }
                                    },
                                },
                            },
                        },
                    },
                },
            },
        },
    }
}

// ---------------------------------------------------------------------------
// Emitter: the canonical text of a collection and of a container.
// ---------------------------------------------------------------------------

/// The character for one digit value below 16, lower case.
pub open spec fn hex_digit_ch(v: int) -> char {
    if v < 10 {
        ((48 + v) as u8) as char
    } else {
        ((87 + v) as u8) as char
    }
}

/// How one character appears inside an emitted string literal.
pub open spec fn escape_char(c: char) -> Seq<char> {
    if c == '"' {
        seq!['\\', '"']
    } else if c == '\\' {
        seq!['\\', '\\']
    } else if c == '\n' {
        seq!['\\', 'n']
    } else if c == '\r' {
        seq!['\\', 'r']
    } else if c == '\t' {
        seq!['\\', 't']
    } else if (c as u32) < 32 {
        seq!['\\', 'u', '0', '0', hex_digit_ch(c as u32 as int / 16), hex_digit_ch(c as u32 as int % 16)]
    } else {
        seq![c]
    }
}

pub open spec fn escape_str(t: Seq<char>) -> Seq<char>
    decreases t.len(),
{
    if t.len() == 0 {
        Seq::empty()
    } else {
        escape_char(t[0]) + escape_str(t.skip(1))
    }
}

pub open spec fn json_string(t: Seq<char>) -> Seq<char> {
    seq!['"'] + escape_str(t) + seq!['"']
}

/// Decimal digits of a non-negative number, most significant first.
pub open spec fn digits_of(n: int) -> Seq<char>
    decreases n,
{
    if n < 10 {
        seq![hex_digit_ch(n)]
    } else {
        digits_of(n / 10) + seq![hex_digit_ch(n % 10)]
    }
}

pub open spec fn vault_json(v: VaultView) -> Seq<char> {
    "{"@ + "\"id\""@ + ":"@ + digits_of(v.id) + ","@ + "\"service\""@ + ":"@ + json_string(
        v.service,
    ) + ","@ + "\"username\""@ + ":"@ + json_string(v.username) + ","@ + "\"password\""@ + ":"@
        + json_string(v.password) + "}"@
}

pub open spec fn items_json(items: Seq<VaultView>) -> Seq<char>
    decreases items.len(),
{
    if items.len() == 0 {
        Seq::empty()
    } else if items.len() == 1 {
        vault_json(items[0])
    } else {
        vault_json(items[0]) + ","@ + items_json(items.skip(1))
    }
}

/// The canonical bare (legacy) document of a collection.
pub open spec fn store_json(v: StoreView) -> Seq<char> {
    "{"@ + "\"next_id\""@ + ":"@ + digits_of(v.next_id) + ","@ + "\"vault_items\""@ + ":"@ + "["@
        + items_json(v.items) + "]"@ + "}"@
}

/// The canonical container document.
pub open spec fn container_json(ct: ContainerText) -> Seq<char> {
    "{"@ + "\"salt_b64\""@ + ":"@ + json_string(ct.salt_b64) + ","@ + "\"kdf_iterations\""@ + ":"@
        + digits_of(ct.iterations) + ","@ + "\"kdf_memory_kib\""@ + ":"@ + digits_of(ct.memory_kib)
        + ","@ + "\"blob_b64\""@ + ":"@ + json_string(ct.blob_b64) + "}"@
}

// ---------------------------------------------------------------------------
// Shrinking lemmas: a successful parse consumes part of its input.
// ---------------------------------------------------------------------------

pub proof fn lemma_skip_ws_len(s: Seq<char>)
    ensures
        skip_ws(s).len() <= s.len(),
    decreases s.len(),
{
    if s.len() > 0 && is_ws(s[0]) {
        lemma_skip_ws_len(s.skip(1));
    }
}

pub proof fn lemma_ps_lit_len(s: Seq<char>, lit: Seq<char>)
    ensures
        ps_lit(s, lit) matches Some(r) ==> r.len() + lit.len() == s.len(),
    decreases lit.len(),
{
    if lit.len() > 0 && s.len() > 0 && s[0] == lit[0] {
        lemma_ps_lit_len(s.skip(1), lit.skip(1));
    }
}

pub proof fn lemma_ps_tok_len(s: Seq<char>, lit: Seq<char>)
    ensures
        ps_tok(s, lit) matches Some(r) ==> r.len() + lit.len() <= s.len(),
{
    lemma_skip_ws_len(s);
    lemma_ps_lit_len(skip_ws(s), lit);
}

pub proof fn lemma_ps_string_rest_len(s: Seq<char>)
    ensures
        ps_string_rest(s) matches Some(r) ==> r.1.len() < s.len(),
    decreases s.len(),
{
    if s.len() == 0 {
    } else if s[0] == '"' {
    } else if s[0] == '\\' {
        if s.len() >= 2 {
            let e = s[1];
            if e == 'u' {
                if s.len() >= 6 {
                    lemma_ps_string_rest_len(s.skip(6));
                }
            } else {
                lemma_ps_string_rest_len(s.skip(2));
            }
        }
    } else if (s[0] as u32) < 32 {
    } else {
        lemma_ps_string_rest_len(s.skip(1));
    }
}

pub proof fn lemma_ps_str_tok_len(s: Seq<char>)
    ensures
        ps_str_tok(s) matches Some(r) ==> r.1.len() < s.len(),
{
    lemma_skip_ws_len(s);
    let t = skip_ws(s);
    if t.len() > 0 && t[0] == '"' {
        lemma_ps_string_rest_len(t.skip(1));
    }
}

pub proof fn lemma_digit_run_le(s: Seq<char>)
    ensures
        0 <= digit_run(s) <= s.len(),
    decreases s.len(),
{
    if s.len() > 0 && is_digit(s[0]) {
        lemma_digit_run_le(s.skip(1));
    }
}

pub proof fn lemma_ps_num_tok_len(s: Seq<char>)
    ensures
        ps_num_tok(s) matches Some(r) ==> r.1.len() < s.len(),
{
    lemma_skip_ws_len(s);
    lemma_digit_run_le(skip_ws(s));
}

pub proof fn lemma_ps_vault_len(s: Seq<char>)
    ensures
        ps_vault(s) matches Some(r) ==> r.1.len() < s.len(),
{
    if ps_vault(s) is Some {
        let s1 = ps_tok(s, "{"@).unwrap();
        lemma_ps_tok_len(s, "{"@);
        let s2 = ps_tok(s1, "\"id\""@).unwrap();
        lemma_ps_tok_len(s1, "\"id\""@);
        let s3 = ps_tok(s2, ":"@).unwrap();
        lemma_ps_tok_len(s2, ":"@);
        let (id, s4) = ps_num_tok(s3).unwrap();
        lemma_ps_num_tok_len(s3);
        let s5 = ps_tok(s4, ","@).unwrap();
        lemma_ps_tok_len(s4, ","@);
        let s6 = ps_tok(s5, "\"service\""@).unwrap();
        lemma_ps_tok_len(s5, "\"service\""@);
        let s7 = ps_tok(s6, ":"@).unwrap();
        lemma_ps_tok_len(s6, ":"@);
        let (sv, s8) = ps_str_tok(s7).unwrap();
        lemma_ps_str_tok_len(s7);
        let s9 = ps_tok(s8, ","@).unwrap();
        lemma_ps_tok_len(s8, ","@);
        let s10 = ps_tok(s9, "\"username\""@).unwrap();
        lemma_ps_tok_len(s9, "\"username\""@);
        let s11 = ps_tok(s10, ":"@).unwrap();
        lemma_ps_tok_len(s10, ":"@);
        let (un, s12) = ps_str_tok(s11).unwrap();
        lemma_ps_str_tok_len(s11);
        let s13 = ps_tok(s12, ","@).unwrap();
        lemma_ps_tok_len(s12, ","@);
        let s14 = ps_tok(s13, "\"password\""@).unwrap();
        lemma_ps_tok_len(s13, "\"password\""@);
        let s15 = ps_tok(s14, ":"@).unwrap();
        lemma_ps_tok_len(s14, ":"@);
        let (pw, s16) = ps_str_tok(s15).unwrap();
        lemma_ps_str_tok_len(s15);
        let s17 = ps_tok(s16, "}"@).unwrap();
        lemma_ps_tok_len(s16, "}"@);
    }
}

// ---------------------------------------------------------------------------
// Properties of the decimal notation.
// ---------------------------------------------------------------------------

pub open spec fn pow10(k: int) -> int
    decreases k,
{
    if k <= 0 {
        1
    } else {
        10 * pow10(k - 1)
    }
}

pub proof fn lemma_pow10_pos(k: int)
    ensures
        pow10(k) >= 1,
    decreases k,
{
    if k > 0 {
        lemma_pow10_pos(k - 1);
    }
}

pub proof fn lemma_pow10_mono(a: int, b: int)
    requires
        a <= b,
    ensures
        pow10(a) <= pow10(b),
    decreases b,
{
    if a < b && b > 0 {
        lemma_pow10_mono(a, b - 1);
        lemma_pow10_pos(b - 1);
    }
}

pub proof fn lemma_u64_below_pow10_20()
    ensures
        (u64::MAX as int) < pow10(20),
{
    reveal_with_fuel(pow10, 21);
    assert(pow10(20) == 100000000000000000000int);
}

/// The digits of `n` are digits, there is at least one, and they read back
/// to `n`.
pub proof fn lemma_digits_of(n: int)
    requires
        0 <= n,
    ensures
        digits_of(n).len() >= 1,
        forall|i: int| 0 <= i < digits_of(n).len() ==> is_digit(#[trigger] digits_of(n)[i]),
        digits_val(digits_of(n)) == n,
    decreases n,
{
    if n < 10 {
        assert(digits_of(n) =~= seq![hex_digit_ch(n)]);
        assert(is_digit(hex_digit_ch(n)));
        let d = digits_of(n);
        assert(d.drop_last() =~= Seq::<char>::empty());
        assert(d.last() == hex_digit_ch(n));
        assert(d.len() == 1);
        assert(digits_val(Seq::<char>::empty()) == 0);
        assert(digits_val(d) == digits_val(d.drop_last()) * 10 + digit_val(d.last()));
        assert(digit_val(hex_digit_ch(n)) == n);
    } else {
        lemma_digits_of(n / 10);
        let front = digits_of(n / 10);
        let whole = digits_of(n);
        assert(whole =~= front + seq![hex_digit_ch(n % 10)]);
        assert(whole.drop_last() =~= front);
        assert(whole.last() == hex_digit_ch(n % 10));
        assert(is_digit(hex_digit_ch(n % 10)));
        assert(digit_val(hex_digit_ch(n % 10)) == n % 10);
        assert(digits_val(whole) == digits_val(front) * 10 + n % 10);
    }
}

pub proof fn lemma_digits_of_len(n: int, k: int)
    requires
        0 <= n,
        1 <= k,
        n < pow10(k),
    ensures
        digits_of(n).len() <= k,
    decreases k,
{
    if n >= 10 {
        lemma_pow10_pos(k - 1);
        if k == 1 {
            assert(pow10(1) == 10);
            assert(false);
        }
        assert(n < 10 * pow10(k - 1));
        assert(n / 10 < pow10(k - 1)) by (nonlinear_arith)
            requires
                n >= 10,
                pow10(k - 1) >= 1,
                n < 10 * pow10(k - 1),
        ;
        lemma_digits_of_len(n / 10, k - 1);
    }
}

/// The value of a run of digits is bounded by a power of ten.
pub proof fn lemma_digits_val_bound(ds: Seq<char>)
    requires
        forall|i: int| 0 <= i < ds.len() ==> is_digit(#[trigger] ds[i]),
    ensures
        0 <= digits_val(ds) < pow10(ds.len() as int),
    decreases ds.len(),
{
    if ds.len() == 0 {
    } else {
        let front = ds.drop_last();
        assert(forall|i: int| 0 <= i < front.len() ==> is_digit(#[trigger] front[i]));
        lemma_digits_val_bound(front);
        assert(0 <= digit_val(ds.last()) <= 9);
        assert(pow10(ds.len() as int) == 10 * pow10(ds.len() - 1));
    }
}

pub proof fn lemma_digit_run_concat(ds: Seq<char>, rest: Seq<char>)
    requires
        forall|i: int| 0 <= i < ds.len() ==> is_digit(#[trigger] ds[i]),
        rest.len() == 0 || !is_digit(rest[0]),
    ensures
        digit_run(ds + rest) == ds.len(),
    decreases ds.len(),
{
    if ds.len() == 0 {
        assert(ds + rest =~= rest);
    } else {
        assert((ds + rest)[0] == ds[0]);
        assert((ds + rest).skip(1) =~= ds.skip(1) + rest);
        assert(forall|i: int| 0 <= i < ds.skip(1).len() ==> is_digit(#[trigger] ds.skip(1)[i]));
        lemma_digit_run_concat(ds.skip(1), rest);
    }
}

/// Parsing the emitted digits of `n` gives `n` back.
pub proof fn lemma_ps_num_tok_prefix(n: int, rest: Seq<char>)
    requires
        0 <= n <= u64::MAX as int,
        rest.len() == 0 || !is_digit(rest[0]),
    ensures
        ps_num_tok(digits_of(n) + rest) == Some((n, rest)),
{
    let ds = digits_of(n);
    let s = ds + rest;
    lemma_digits_of(n);
    assert(s[0] == ds[0]);
    assert(is_digit(s[0]));
    assert(!is_ws(s[0]));
    assert(skip_ws(s) == s);
    lemma_digit_run_concat(ds, rest);
    let k = digit_run(s);
    assert(k == ds.len());
    lemma_u64_below_pow10_20();
    lemma_digits_of_len(n, 20);
    assert(1 <= k <= 20);
    assert(s.take(k) =~= ds);
    assert(s.skip(k) =~= rest);
}

// ---------------------------------------------------------------------------
// Round trip of emitted literals and strings through the parser.
// ---------------------------------------------------------------------------

pub proof fn lemma_ps_lit_prefix(lit: Seq<char>, rest: Seq<char>)
    ensures
        ps_lit(lit + rest, lit) == Some(rest),
    decreases lit.len(),
{
    if lit.len() == 0 {
        assert(lit + rest =~= rest);
    } else {
        assert((lit + rest)[0] == lit[0]);
        assert((lit + rest).skip(1) =~= lit.skip(1) + rest);
        lemma_ps_lit_prefix(lit.skip(1), rest);
    }
}

pub proof fn lemma_ps_lit_implies_prefix(s: Seq<char>, lit: Seq<char>)
    ensures
        ps_lit(s, lit) is Some ==> s.len() >= lit.len() && forall|i: int|
            0 <= i < lit.len() ==> s[i] == lit[i],
    decreases lit.len(),
{
    if lit.len() > 0 && s.len() > 0 && s[0] == lit[0] {
        lemma_ps_lit_implies_prefix(s.skip(1), lit.skip(1));
        if ps_lit(s, lit) is Some {
            assert forall|i: int| 0 <= i < lit.len() implies s[i] == lit[i] by {
                if i > 0 {
                    assert(s.skip(1)[i - 1] == lit.skip(1)[i - 1]);
                }
            }
        }
    }
}

pub proof fn lemma_ps_tok_prefix(lit: Seq<char>, rest: Seq<char>)
    requires
        lit.len() > 0,
        !is_ws(lit[0]),
    ensures
        ps_tok(lit + rest, lit) == Some(rest),
{
    assert((lit + rest)[0] == lit[0]);
    assert(skip_ws(lit + rest) == lit + rest);
    lemma_ps_lit_prefix(lit, rest);
}

pub proof fn lemma_hex_digit_roundtrip(v: int)
    requires
        0 <= v < 16,
    ensures
        hex_char_val(hex_digit_ch(v)) == v,
{
    if v < 10 {
        assert(hex_digit_ch(v) as u32 == 48 + v);
    } else {
        assert(hex_digit_ch(v) as u32 == 87 + v);
    }
}

/// Parsing an emitted (escaped) string body gives the original characters
/// back, and consumes exactly up to the closing quote.
pub proof fn lemma_ps_string_escaped(t: Seq<char>, rest: Seq<char>)
    ensures
        ps_string_rest(escape_str(t) + (seq!['"'] + rest)) == Some((t, rest)),
    decreases t.len(),
{
    let s = escape_str(t) + (seq!['"'] + rest);
    if t.len() == 0 {
        assert(s =~= seq!['"'] + rest);
        assert(s[0] == '"');
        assert(s.skip(1) =~= rest);
        assert(ps_string_rest(s) =~= Some((t, rest)));
    } else {
        let c = t[0];
        let e = escape_char(c);
        assert(escape_str(t) == e + escape_str(t.skip(1)));
        assert(s =~= e + (escape_str(t.skip(1)) + (seq!['"'] + rest)));
        lemma_ps_string_escaped(t.skip(1), rest);
        let s2 = escape_str(t.skip(1)) + (seq!['"'] + rest);
        if c == '"' || c == '\\' {
            assert(s[0] == '\\' && s.len() >= 2 && s[1] == c);
            assert(s.skip(2) =~= s2);
            assert(ps_string_rest(s) =~= Some((t, rest)));
        } else if c == '\n' {
            assert(s[0] == '\\' && s.len() >= 2 && s[1] == 'n');
            assert(s.skip(2) =~= s2);
            assert(ps_string_rest(s) =~= Some((t, rest)));
        } else if c == '\r' {
            assert(s[0] == '\\' && s.len() >= 2 && s[1] == 'r');
            assert(s.skip(2) =~= s2);
            assert(ps_string_rest(s) =~= Some((t, rest)));
        } else if c == '\t' {
            assert(s[0] == '\\' && s.len() >= 2 && s[1] == 't');
            assert(s.skip(2) =~= s2);
            assert(ps_string_rest(s) =~= Some((t, rest)));
        } else if (c as u32) < 32 {
            let code = c as u32 as int;
            assert(e =~= seq!['\\', 'u', '0', '0', hex_digit_ch(code / 16), hex_digit_ch(code % 16)]);
            assert(s[0] == '\\' && s.len() >= 6 && s[1] == 'u');
            assert(s[2] == '0' && s[3] == '0');
            assert(s[4] == hex_digit_ch(code / 16) && s[5] == hex_digit_ch(code % 16));
            assert(hex_char_val('0') == 0);
            lemma_hex_digit_roundtrip(code / 16);
            lemma_hex_digit_roundtrip(code % 16);
            let v = hex_char_val(s[2]) * 4096 + hex_char_val(s[3]) * 256 + hex_char_val(s[4]) * 16
                + hex_char_val(s[5]);
            assert(v == code);
            vstd::utf8::char_u32_cast(c, c as u32);
            assert((c as u32) as char == c);
            assert((v as u8) as char == c);
            assert(s.skip(6) =~= s2);
            assert(ps_string_rest(s) =~= Some((t, rest)));
        } else {
            assert(e =~= seq![c]);
            assert(s[0] == c);
            assert(s.skip(1) =~= s2);
            assert(ps_string_rest(s) =~= Some((t, rest)));
        }
    }
}

pub proof fn lemma_ps_str_tok_prefix(x: Seq<char>, rest: Seq<char>)
    ensures
        ps_str_tok(json_string(x) + rest) == Some((x, rest)),
{
    let s = json_string(x) + rest;
    assert(s[0] == '"');
    assert(!is_ws('"'));
    assert(skip_ws(s) == s);
    assert(s.skip(1) =~= escape_str(x) + (seq!['"'] + rest));
    lemma_ps_string_escaped(x, rest);
}

// ---------------------------------------------------------------------------
// Round trip of whole emitted documents through the parser.
// ---------------------------------------------------------------------------

/// Parsing an emitted record object gives the record back.
#[verifier::rlimit(100)]
pub proof fn lemma_ps_vault_json(v: VaultView, rest: Seq<char>)
    requires
        0 <= v.id <= usize::MAX as int,
    ensures
        ps_vault(vault_json(v) + rest) == Some((v, rest)),
{
    reveal_strlit("{");
    reveal_strlit("\"id\"");
    reveal_strlit(":");
    reveal_strlit(",");
    reveal_strlit("\"service\"");
    reveal_strlit("\"username\"");
    reveal_strlit("\"password\"");
    reveal_strlit("}");
    lemma_digits_of(v.id);
    let t18 = rest;
    let t17 = "}"@ + t18;
    let t16 = json_string(v.password) + t17;
    let t15 = ":"@ + t16;
    let t14 = "\"password\""@ + t15;
    let t13 = ","@ + t14;
    let t12 = json_string(v.username) + t13;
    let t11 = ":"@ + t12;
    let t10 = "\"username\""@ + t11;
    let t9 = ","@ + t10;
    let t8 = json_string(v.service) + t9;
    let t7 = ":"@ + t8;
    let t6 = "\"service\""@ + t7;
    let t5 = ","@ + t6;
    let t4 = digits_of(v.id) + t5;
    let t3 = ":"@ + t4;
    let t2 = "\"id\""@ + t3;
    let s0 = vault_json(v) + rest;
    assert(s0 =~= "{"@ + t2);
    lemma_ps_tok_prefix("{"@, t2);
    assert(ps_tok(s0, "{"@) == Some(t2));
    lemma_ps_tok_prefix("\"id\""@, t3);
    assert(ps_tok(t2, "\"id\""@) == Some(t3));
    lemma_ps_tok_prefix(":"@, t4);
    assert(ps_tok(t3, ":"@) == Some(t4));
    assert(t5[0] == ',');
    lemma_ps_num_tok_prefix(v.id, t5);
    assert(ps_num_tok(t4) == Some((v.id, t5)));
    lemma_ps_tok_prefix(","@, t6);
    assert(ps_tok(t5, ","@) == Some(t6));
    lemma_ps_tok_prefix("\"service\""@, t7);
    assert(ps_tok(t6, "\"service\""@) == Some(t7));
    lemma_ps_tok_prefix(":"@, t8);
    assert(ps_tok(t7, ":"@) == Some(t8));
    lemma_ps_str_tok_prefix(v.service, t9);
    assert(ps_str_tok(t8) == Some((v.service, t9)));
    lemma_ps_tok_prefix(","@, t10);
    assert(ps_tok(t9, ","@) == Some(t10));
    lemma_ps_tok_prefix("\"username\""@, t11);
    assert(ps_tok(t10, "\"username\""@) == Some(t11));
    lemma_ps_tok_prefix(":"@, t12);
    assert(ps_tok(t11, ":"@) == Some(t12));
    lemma_ps_str_tok_prefix(v.username, t13);
    assert(ps_str_tok(t12) == Some((v.username, t13)));
    lemma_ps_tok_prefix(","@, t14);
    assert(ps_tok(t13, ","@) == Some(t14));
    lemma_ps_tok_prefix("\"password\""@, t15);
    assert(ps_tok(t14, "\"password\""@) == Some(t15));
    lemma_ps_tok_prefix(":"@, t16);
    assert(ps_tok(t15, ":"@) == Some(t16));
    lemma_ps_str_tok_prefix(v.password, t17);
    assert(ps_str_tok(t16) == Some((v.password, t17)));
    lemma_ps_tok_prefix("}"@, t18);
    assert(ps_tok(t17, "}"@) == Some(t18));
    assert(ps_vault(s0) =~= Some((v, rest)));
}

/// Parsing an emitted record array body gives the records back.
pub proof fn lemma_ps_vault_list_json(items: Seq<VaultView>, rest: Seq<char>)
    requires
        forall|i: int| 0 <= i < items.len() ==> 0 <= (#[trigger] items[i]).id <= usize::MAX as int,
    ensures
        ps_vault_list(items_json(items) + ("]"@ + rest)) == Some((items, rest)),
    decreases items.len(),
{
    reveal_strlit("{");
    reveal_strlit("]");
    reveal_strlit(",");
    let s = items_json(items) + ("]"@ + rest);
    if items.len() == 0 {
        assert(s =~= "]"@ + rest);
        lemma_ps_tok_prefix("]"@, rest);
        assert(ps_vault_list(s) =~= Some((items, rest)));
    } else {
        let head = items[0];
        let r2: Seq<char> = if items.len() == 1 {
            "]"@ + rest
        } else {
            ","@ + (items_json(items.skip(1)) + ("]"@ + rest))
        };
        if items.len() == 1 {
            assert(s =~= vault_json(head) + r2);
        } else {
            assert(items_json(items) == vault_json(head) + ","@ + items_json(items.skip(1)));
            assert(s =~= vault_json(head) + r2);
        }
        // the leading "]" token cannot match: the text starts with '{'
        assert(vault_json(head).len() > 0);
        assert(vault_json(head)[0] == '{');
        assert(s[0] == '{');
        assert(skip_ws(s) == s);
        assert(ps_lit(s, "]"@) is None);
        lemma_ps_vault_json(head, r2);
        let t = skip_ws(r2);
        if items.len() == 1 {
            assert(r2[0] == ']');
            assert(t == r2);
            assert(t[0] == ']');
            assert(t.skip(0) == t);
            lemma_ps_lit_prefix("]"@, rest);
            assert(r2 =~= "]"@ + rest);
            assert(ps_vault_list_items(s) =~= Some((seq![head], rest)));
            assert(seq![head] =~= items);
        } else {
            assert(r2[0] == ',');
            assert(t == r2);
            assert(t.skip(1) =~= items_json(items.skip(1)) + ("]"@ + rest));
            assert(forall|i: int|
                0 <= i < items.skip(1).len() ==> 0 <= (#[trigger] items.skip(1)[i]).id
                    <= usize::MAX as int);
            lemma_ps_vault_list_json(items.skip(1), rest);
            assert(ps_vault_list_items(s) =~= Some((seq![head] + items.skip(1), rest)));
            assert(seq![head] + items.skip(1) =~= items);
        }
    }
}

/// Parsing the emitted bare document of a collection gives the collection
/// back: the legacy format round-trips.
pub proof fn lemma_ps_store_json(v: StoreView)
    requires
        0 <= v.next_id <= usize::MAX as int,
        forall|i: int|
            0 <= i < v.items.len() ==> 0 <= (#[trigger] v.items[i]).id <= usize::MAX as int,
    ensures
        ps_store_text(store_json(v)) == Some(v),
{
    reveal_strlit("{");
    reveal_strlit("\"next_id\"");
    reveal_strlit(":");
    reveal_strlit(",");
    reveal_strlit("\"vault_items\"");
    reveal_strlit("[");
    reveal_strlit("]");
    reveal_strlit("}");
    let t11 = Seq::<char>::empty();
    let t10 = "}"@ + t11;
    let t9 = items_json(v.items) + ("]"@ + t10);
    let t7 = "["@ + t9;
    let t6 = ":"@ + t7;
    let t5 = "\"vault_items\""@ + t6;
    let t4 = ","@ + t5;
    let t3 = digits_of(v.next_id) + t4;
    let t2 = ":"@ + t3;
    let t1 = "\"next_id\""@ + t2;
    lemma_digits_of(v.next_id);
    assert(store_json(v) =~= "{"@ + t1);
    lemma_ps_tok_prefix("{"@, t1);
    lemma_ps_tok_prefix("\"next_id\""@, t2);
    lemma_ps_tok_prefix(":"@, t3);
    assert(t4[0] == ',');
    lemma_ps_num_tok_prefix(v.next_id, t4);
    lemma_ps_tok_prefix(","@, t5);
    lemma_ps_tok_prefix("\"vault_items\""@, t6);
    lemma_ps_tok_prefix(":"@, t7);
    lemma_ps_tok_prefix("["@, t9);
    lemma_ps_vault_list_json(v.items, t10);
    lemma_ps_tok_prefix("}"@, t11);
    assert(skip_ws(t11).len() == 0);
    assert(ps_store_text(store_json(v)) =~= Some(v));
}

/// Parsing the emitted container document gives its fields back.
pub proof fn lemma_ps_container_json(ct: ContainerText)
    requires
        0 <= ct.iterations <= u32::MAX as int,
        0 <= ct.memory_kib <= u32::MAX as int,
    ensures
        ps_container_text(container_json(ct)) == Some(ct),
{
    reveal_strlit("{");
    reveal_strlit("\"salt_b64\"");
    reveal_strlit(":");
    reveal_strlit(",");
    reveal_strlit("\"kdf_iterations\"");
    reveal_strlit("\"kdf_memory_kib\"");
    reveal_strlit("\"blob_b64\"");
    reveal_strlit("}");
    let t18 = Seq::<char>::empty();
    let t17 = "}"@ + t18;
    let t16 = json_string(ct.blob_b64) + t17;
    let t15 = ":"@ + t16;
    let t14 = "\"blob_b64\""@ + t15;
    let t13 = ","@ + t14;
    let t12 = digits_of(ct.memory_kib) + t13;
    let t11 = ":"@ + t12;
    let t10 = "\"kdf_memory_kib\""@ + t11;
    let t9 = ","@ + t10;
    let t8 = digits_of(ct.iterations) + t9;
    let t7 = ":"@ + t8;
    let t6 = "\"kdf_iterations\""@ + t7;
    let t5 = ","@ + t6;
    let t4 = json_string(ct.salt_b64) + t5;
    let t3 = ":"@ + t4;
    let t2 = "\"salt_b64\""@ + t3;
    lemma_digits_of(ct.iterations);
    lemma_digits_of(ct.memory_kib);
    assert(container_json(ct) =~= "{"@ + t2);
    lemma_ps_tok_prefix("{"@, t2);
    lemma_ps_tok_prefix("\"salt_b64\""@, t3);
    lemma_ps_tok_prefix(":"@, t4);
    lemma_ps_str_tok_prefix(ct.salt_b64, t5);
    lemma_ps_tok_prefix(","@, t6);
    lemma_ps_tok_prefix("\"kdf_iterations\""@, t7);
    lemma_ps_tok_prefix(":"@, t8);
    assert(t9[0] == ',');
    lemma_ps_num_tok_prefix(ct.iterations, t9);
    lemma_ps_tok_prefix(","@, t10);
    lemma_ps_tok_prefix("\"kdf_memory_kib\""@, t11);
    lemma_ps_tok_prefix(":"@, t12);
    assert(t13[0] == ',');
    lemma_ps_num_tok_prefix(ct.memory_kib, t13);
    lemma_ps_tok_prefix(","@, t14);
    lemma_ps_tok_prefix("\"blob_b64\""@, t15);
    lemma_ps_tok_prefix(":"@, t16);
    lemma_ps_str_tok_prefix(ct.blob_b64, t17);
    lemma_ps_tok_prefix("}"@, t18);
    assert(skip_ws(t18).len() == 0);
    assert(ps_container_text(container_json(ct)) =~= Some(ct));
}

/// A text that parses as a container does not parse as a bare collection:
/// the two shapes are told apart by their first field name.
pub proof fn lemma_container_not_store(s: Seq<char>)
    ensures
        ps_container_text(s) is Some ==> ps_store_text(s) is None,
{
    if ps_container_text(s) is Some && ps_store_text(s) is Some {
        reveal_strlit("\"salt_b64\"");
        reveal_strlit("\"next_id\"");
        let s1 = ps_tok(s, "{"@).unwrap();
        let t = skip_ws(s1);
        lemma_ps_lit_implies_prefix(t, "\"salt_b64\""@);
        lemma_ps_lit_implies_prefix(t, "\"next_id\""@);
        assert(t[1] == 's' && t[1] == 'n');
        assert(false);
    }
}

/// The emitted bare document of a collection never parses as a container.
pub proof fn lemma_store_json_not_container(v: StoreView)
    ensures
        ps_container_text(store_json(v)) is None,
{
    if ps_container_text(store_json(v)) is Some {
        reveal_strlit("\"salt_b64\"");
        reveal_strlit("\"next_id\"");
        lemma_ps_store_json_header(v);
        let s1 = ps_tok(store_json(v), "{"@).unwrap();
        let t = skip_ws(s1);
        lemma_ps_lit_implies_prefix(t, "\"salt_b64\""@);
        lemma_ps_lit_implies_prefix(t, "\"next_id\""@);
        assert(t[1] == 's' && t[1] == 'n');
        assert(false);
    }
}

/// The emitted bare document at least opens with its first field, which is
/// enough for the shape test above.
#[verifier::rlimit(100)]
proof fn lemma_ps_store_json_header(v: StoreView)
    ensures
        ps_tok(store_json(v), "{"@) is Some,
        ps_tok(ps_tok(store_json(v), "{"@).unwrap(), "\"next_id\""@) is Some,
{
    reveal_strlit("{");
    reveal_strlit("\"next_id\"");
    let t2 = ":"@ + (digits_of(v.next_id) + (","@ + ("\"vault_items\""@ + (":"@ + ("["@ + (
    items_json(v.items) + ("]"@ + ("}"@ + Seq::<char>::empty()))))))));
    let t1 = "\"next_id\""@ + t2;
    assert(store_json(v) =~= "{"@ + t1);
    lemma_ps_tok_prefix("{"@, t1);
    lemma_ps_tok_prefix("\"next_id\""@, t2);
}

} // verus!
