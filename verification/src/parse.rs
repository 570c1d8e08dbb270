//! The executable parser for the on-disk text format.  Every function is
//! proved to return exactly what the corresponding specification parser in
//! [`crate::format`] says.

use vstd::prelude::*;

use crate::format::{
    digit_run, digits_val, hex_char_val, is_digit, is_ws, lemma_digits_val_bound,
    lemma_ps_vault_len, lemma_skip_ws_len, pow10, ps_container_text, ps_lit, ps_num_tok, ps_number,
    ps_store_text, ps_str_tok, ps_string_rest, ps_tok, ps_vault, ps_vault_list,
    ps_vault_list_items, skip_ws,
};
use crate::primitives::str_chars;
use crate::vault::{Store, Vault, VaultView};

verus! {

/// The views of a sequence of records.
pub open spec fn views_of(vv: Seq<Vault>) -> Seq<VaultView> {
    vv.map_values(|v: Vault| v@)
}

fn e_skip_ws(s: &Vec<char>, i: usize) -> (j: usize)
    requires
        i <= s@.len(),
    ensures
        i <= j <= s@.len(),
        skip_ws(s@.skip(i as int)) == s@.skip(j as int),
    decreases s@.len() - i,
{
    if i < s.len() {
        let c = s[i];
        if c == ' ' || c == '\n' || c == '\r' || c == '\t' {
            proof {
                assert(is_ws(s@[i as int]));
                assert(s@.skip(i as int).skip(1) =~= s@.skip(i as int + 1));
            }
            return e_skip_ws(s, i + 1);
        }
    }
    proof {
        if i < s@.len() {
            assert(!is_ws(s@.skip(i as int)[0]));
        }
    }
    i
}

fn e_lit(s: &Vec<char>, i: usize, lit: &Vec<char>, k: usize) -> (r: Option<usize>)
    requires
        i <= s@.len(),
        k <= lit@.len(),
    ensures
        match ps_lit(s@.skip(i as int), lit@.skip(k as int)) {
            None => r is None,
            Some(rem) => r matches Some(j) && i <= j <= s@.len() && s@.skip(j as int) == rem,
        },
    decreases lit@.len() - k,
{
    if k == lit.len() {
        proof {
            assert(lit@.skip(k as int) =~= Seq::<char>::empty());
        }
        Some(i)
    } else if i < s.len() && s[i] == lit[k] {
        proof {
            assert(s@.skip(i as int).skip(1) =~= s@.skip(i as int + 1));
            assert(lit@.skip(k as int).skip(1) =~= lit@.skip(k as int + 1));
        }
        e_lit(s, i + 1, lit, k + 1)
    } else {
        None
    }
}

fn e_tok(s: &Vec<char>, i: usize, lit: &str) -> (r: Option<usize>)
    requires
        i <= s@.len(),
    ensures
        match ps_tok(s@.skip(i as int), lit@) {
            None => r is None,
            Some(rem) => r matches Some(j) && i <= j <= s@.len() && s@.skip(j as int) == rem,
        },
{
    let lv = str_chars(lit);
    let j = e_skip_ws(s, i);
    proof {
        assert(lv@.skip(0) =~= lv@);
    }
    e_lit(s, j, &lv, 0)
}

fn e_hexval(c: char) -> (r: Option<u8>)
    ensures
        match r {
            Some(h) => hex_char_val(c) == h as int && h < 16,
            None => hex_char_val(c) == -1,
        },
{
    let u = c as u32;
    if 48 <= u && u <= 57 {
        Some((u - 48) as u8)
    } else if 97 <= u && u <= 102 {
        Some((u - 87) as u8)
    } else if 65 <= u && u <= 70 {
        Some((u - 55) as u8)
    } else {
        None
    }
}

fn e_string_rest(s: &Vec<char>, i: usize, acc: Vec<char>) -> (r: Option<(Vec<char>, usize)>)
    requires
        i <= s@.len(),
    ensures
        match ps_string_rest(s@.skip(i as int)) {
            None => r is None,
            Some(p) => r matches Some(q) && q.0@ == acc@ + p.0 && q.1 <= s@.len() && s@.skip(
                q.1 as int,
            ) == p.1,
        },
    decreases s@.len() - i,
{
    if i >= s.len() {
        return None;
    }
    let c = s[i];
    if c == '"' {
        proof {
            assert(acc@ + Seq::<char>::empty() =~= acc@);
            assert(s@.skip(i as int).skip(1) =~= s@.skip(i as int + 1));
        }
        Some((acc, i + 1))
    } else if c == '\\' {
        if i + 1 >= s.len() {
            return None;
        }
        let e = s[i + 1];
        proof {
            assert(s@.skip(i as int)[1] == s@[i as int + 1]);
            assert(s@.skip(i as int).skip(2) =~= s@.skip(i as int + 2));
        }
        if e == '"' || e == '\\' || e == '/' {
            let mut acc2 = acc;
            acc2.push(e);
            let ghost acc2v = acc2@;
            let rr = e_string_rest(s, i + 2, acc2);
            proof {
                match ps_string_rest(s@.skip(i as int + 2)) {
                    Some(p2) => {
                        assert(acc2v + p2.0 =~= acc@ + (seq![e] + p2.0));
                    },
                    None => {},
                }
            }
            rr
        } else if e == 'n' || e == 'r' || e == 't' || e == 'b' || e == 'f' {
            let ch: char = if e == 'n' {
                '\n'
            } else if e == 'r' {
                '\r'
            } else if e == 't' {
                '\t'
            } else if e == 'b' {
                8u8 as char
            } else {
                12u8 as char
            };
            let mut acc2 = acc;
            acc2.push(ch);
            let ghost acc2v = acc2@;
            let rr = e_string_rest(s, i + 2, acc2);
            proof {
                match ps_string_rest(s@.skip(i as int + 2)) {
                    Some(p2) => {
                        assert(acc2v + p2.0 =~= acc@ + (seq![ch] + p2.0));
                    },
                    None => {},
                }
            }
            rr
        } else if e == 'u' {
            if s.len() - i < 6 {
                return None;
            }
            proof {
                assert(s@.skip(i as int)[2] == s@[i as int + 2]);
                assert(s@.skip(i as int)[3] == s@[i as int + 3]);
                assert(s@.skip(i as int)[4] == s@[i as int + 4]);
                assert(s@.skip(i as int)[5] == s@[i as int + 5]);
                assert(s@.skip(i as int).skip(6) =~= s@.skip(i as int + 6));
            }
            let h0 = match e_hexval(s[i + 2]) {
                Some(h) => h,
                None => {
                    return None;
                },
            };
            let h1 = match e_hexval(s[i + 3]) {
                Some(h) => h,
                None => {
                    return None;
                },
            };
            let h2 = match e_hexval(s[i + 4]) {
                Some(h) => h,
                None => {
                    return None;
                },
            };
            let h3 = match e_hexval(s[i + 5]) {
                Some(h) => h,
                None => {
                    return None;
                },
            };
            let v: u32 = h0 as u32 * 4096 + h1 as u32 * 256 + h2 as u32 * 16 + h3 as u32;
            if v < 128 {
                let ch = (v as u8) as char;
                let mut acc2 = acc;
                acc2.push(ch);
                let ghost acc2v = acc2@;
                let rr = e_string_rest(s, i + 6, acc2);
                proof {
                    match ps_string_rest(s@.skip(i as int + 6)) {
                        Some(p2) => {
                            assert(acc2v + p2.0 =~= acc@ + (seq![ch] + p2.0));
                        },
                        None => {},
                    }
                }
                rr
            } else {
                None
            }
        } else {
            None
        }
    } else if (c as u32) < 32 {
        None
    } else {
        let mut acc2 = acc;
        acc2.push(c);
        let ghost acc2v = acc2@;
        proof {
            assert(s@.skip(i as int).skip(1) =~= s@.skip(i as int + 1));
        }
        let rr = e_string_rest(s, i + 1, acc2);
        proof {
            match ps_string_rest(s@.skip(i as int + 1)) {
                Some(p2) => {
                    assert(acc2v + p2.0 =~= acc@ + (seq![c] + p2.0));
                },
                None => {},
            }
        }
        rr
    }
}

fn e_str_tok(s: &Vec<char>, i: usize) -> (r: Option<(Vec<char>, usize)>)
    requires
        i <= s@.len(),
    ensures
        match ps_str_tok(s@.skip(i as int)) {
            None => r is None,
            Some(p) => r matches Some(q) && q.0@ == p.0 && q.1 <= s@.len() && s@.skip(q.1 as int)
                == p.1,
        },
{
    let j = e_skip_ws(s, i);
    if j < s.len() && s[j] == '"' {
        proof {
            assert(s@.skip(j as int)[0] == s@[j as int]);
            assert(s@.skip(j as int).skip(1) =~= s@.skip(j as int + 1));
        }
        let rr = e_string_rest(s, j + 1, Vec::new());
        proof {
            match ps_string_rest(s@.skip(j as int + 1)) {
                Some(p2) => {
                    assert(Seq::<char>::empty() + p2.0 =~= p2.0);
                },
                None => {},
            }
        }
        rr
    } else {
        None
    }
}

fn e_digit_end(s: &Vec<char>, i: usize) -> (j: usize)
    requires
        i <= s@.len(),
    ensures
        i <= j <= s@.len(),
        j - i == digit_run(s@.skip(i as int)),
        forall|m: int| i <= m < j ==> is_digit(s@[m]),
    decreases s@.len() - i,
{
    if i < s.len() {
        let u = s[i] as u32;
        if 48 <= u && u <= 57 {
            proof {
                assert(is_digit(s@[i as int]));
                assert(s@.skip(i as int).skip(1) =~= s@.skip(i as int + 1));
            }
            return e_digit_end(s, i + 1);
        }
    }
    proof {
        if i < s@.len() {
            assert(!is_digit(s@.skip(i as int)[0]));
        }
    }
    i
}

fn e_number(s: &Vec<char>, i: usize) -> (r: Option<(u64, usize)>)
    requires
        i <= s@.len(),
    ensures
        match ps_number(s@.skip(i as int)) {
            None => r is None,
            Some(p) => r matches Some(q) && q.0 as int == p.0 && q.1 <= s@.len() && s@.skip(
                q.1 as int,
            ) == p.1,
        },
{
    let j = e_digit_end(s, i);
    if j == i || j - i > 20 {
        return None;
    }
    proof {
        crate::format::lemma_pow10_pos(0);
        assert(s@.subrange(i as int, i as int) =~= Seq::<char>::empty());
        reveal_with_fuel(pow10, 21);
        assert(pow10(20) == 100000000000000000000int);
    }
    let mut acc: u128 = 0;
    let mut k: usize = i;
    while k < j
        invariant
            i <= k <= j <= s@.len(),
            j - i <= 20,
            forall|m: int| i <= m < j ==> is_digit(s@[m]),
            acc as int == digits_val(s@.subrange(i as int, k as int)),
            pow10(20) == 100000000000000000000int,
        decreases j - k,
    {
        proof {
            let pre = s@.subrange(i as int, k as int);
            assert(forall|m: int| 0 <= m < pre.len() ==> is_digit(#[trigger] pre[m]));
            lemma_digits_val_bound(pre);
            crate::format::lemma_pow10_mono((k - i) as int, 20);
            assert((acc as int) < pow10(20));
            assert(s@.subrange(i as int, k as int + 1).drop_last() =~= pre);
            assert(s@.subrange(i as int, k as int + 1).last() == s@[k as int]);
        }
        let d = (s[k] as u32 - 48) as u128;
        acc = acc * 10 + d;
        k += 1;
    }
    proof {
        let ds = s@.subrange(i as int, j as int);
        assert(s@.skip(i as int).take((j - i) as int) =~= ds);
        assert(s@.skip(i as int).skip((j - i) as int) =~= s@.skip(j as int));
        assert(digit_run(s@.skip(i as int)) == j - i);
    }
    if acc > u64::MAX as u128 {
        None
    } else {
        Some((acc as u64, j))
    }
}

fn e_num_tok(s: &Vec<char>, i: usize) -> (r: Option<(u64, usize)>)
    requires
        i <= s@.len(),
    ensures
        match ps_num_tok(s@.skip(i as int)) {
            None => r is None,
            Some(p) => r matches Some(q) && q.0 as int == p.0 && q.1 <= s@.len() && s@.skip(
                q.1 as int,
            ) == p.1,
        },
{
    let j = e_skip_ws(s, i);
    e_number(s, j)
}

#[verifier::rlimit(100)]
fn e_vault(s: &Vec<char>, i: usize) -> (r: Option<(Vault, usize)>)
    requires
        i <= s@.len(),
    ensures
        match ps_vault(s@.skip(i as int)) {
            None => r is None,
            Some(p) => r matches Some(q) && q.0@ == p.0 && q.1 <= s@.len() && s@.skip(q.1 as int)
                == p.1,
        },
{
    let i1 = match e_tok(s, i, "{") {
        Some(j) => j,
        None => {
            return None;
        },
    };
    let i2 = match e_tok(s, i1, "\"id\"") {
        Some(j) => j,
        None => {
            return None;
        },
    };
    let i3 = match e_tok(s, i2, ":") {
        Some(j) => j,
        None => {
            return None;
        },
    };
    let (idv, i4) = match e_num_tok(s, i3) {
        Some(q) => q,
        None => {
            return None;
        },
    };
    if idv > usize::MAX as u64 {
        return None;
    }
    let i5 = match e_tok(s, i4, ",") {
        Some(j) => j,
        None => {
            return None;
        },
    };
    let i6 = match e_tok(s, i5, "\"service\"") {
        Some(j) => j,
        None => {
            return None;
        },
    };
    let i7 = match e_tok(s, i6, ":") {
        Some(j) => j,
        None => {
            return None;
        },
    };
    let (svv, i8) = match e_str_tok(s, i7) {
        Some(q) => q,
        None => {
            return None;
        },
    };
    let i9 = match e_tok(s, i8, ",") {
        Some(j) => j,
        None => {
            return None;
        },
    };
    let i10 = match e_tok(s, i9, "\"username\"") {
        Some(j) => j,
        None => {
            return None;
        },
    };
    let i11 = match e_tok(s, i10, ":") {
        Some(j) => j,
        None => {
            return None;
        },
    };
    let (unv, i12) = match e_str_tok(s, i11) {
        Some(q) => q,
        None => {
            return None;
        },
    };
    let i13 = match e_tok(s, i12, ",") {
        Some(j) => j,
        None => {
            return None;
        },
    };
    let i14 = match e_tok(s, i13, "\"password\"") {
        Some(j) => j,
        None => {
            return None;
        },
    };
    let i15 = match e_tok(s, i14, ":") {
        Some(j) => j,
        None => {
            return None;
        },
    };
    let (pwv, i16) = match e_str_tok(s, i15) {
        Some(q) => q,
        None => {
            return None;
        },
    };
    let i17 = match e_tok(s, i16, "}") {
        Some(j) => j,
        None => {
            return None;
        },
    };
    let vlt = Vault::new(
        idv as usize,
        crate::primitives::chars_string(&svv),
        crate::primitives::chars_string(&unv),
        crate::primitives::chars_string(&pwv),
    );
    proof {
        assert(vlt@ =~= ps_vault(s@.skip(i as int)).unwrap().0);
    }
    Some((vlt, i17))
}

fn e_items(s: &Vec<char>, i: usize, acc: Vec<Vault>) -> (r: Option<(Vec<Vault>, usize)>)
    requires
        i <= s@.len(),
    ensures
        match ps_vault_list_items(s@.skip(i as int)) {
            None => r is None,
            Some(p) => r matches Some(q) && views_of(q.0@) == views_of(acc@) + p.0 && q.1
                <= s@.len() && s@.skip(q.1 as int) == p.1,
        },
    decreases s@.len() - i,
{
    let (v, i1) = match e_vault(s, i) {
        Some(q) => q,
        None => {
            return None;
        },
    };
    proof {
        lemma_ps_vault_len(s@.skip(i as int));
        lemma_skip_ws_len(s@.skip(i1 as int));
    }
    let t = e_skip_ws(s, i1);
    let ghost accv = acc@;
    let ghost vview = v@;
    let mut acc2 = acc;
    acc2.push(v);
    proof {
        assert(views_of(acc2@) =~= views_of(accv).push(vview));
    }
    if t < s.len() && s[t] == ',' {
        proof {
            assert(s@.skip(t as int)[0] == s@[t as int]);
            assert(s@.skip(t as int).skip(1) =~= s@.skip(t as int + 1));
        }
        let rr = e_items(s, t + 1, acc2);
        proof {
            match ps_vault_list_items(s@.skip(t as int + 1)) {
                Some(p2) => {
                    assert(views_of(accv).push(vview) + p2.0 =~= views_of(accv) + (seq![vview]
                        + p2.0));
                },
                None => {},
            }
        }
        rr
    } else {
        let lv = str_chars("]");
        proof {
            assert(lv@.skip(0) =~= lv@);
        }
        match e_lit(s, t, &lv, 0) {
            Some(j) => {
                proof {
                    assert(views_of(accv).push(vview) =~= views_of(accv) + seq![vview]);
                }
                Some((acc2, j))
            },
            None => None,
        }
    }
}

fn e_vault_list(s: &Vec<char>, i: usize) -> (r: Option<(Vec<Vault>, usize)>)
    requires
        i <= s@.len(),
    ensures
        match ps_vault_list(s@.skip(i as int)) {
            None => r is None,
            Some(p) => r matches Some(q) && views_of(q.0@) == p.0 && q.1 <= s@.len() && s@.skip(
                q.1 as int,
            ) == p.1,
        },
{
    match e_tok(s, i, "]") {
        Some(j) => {
            let empty_items: Vec<Vault> = Vec::new();
            proof {
                assert(views_of(empty_items@) =~= Seq::<VaultView>::empty());
            }
            Some((empty_items, j))
        },
        None => {
            let start: Vec<Vault> = Vec::new();
            let ghost startv = start@;
            let rr = e_items(s, i, start);
            proof {
                match ps_vault_list_items(s@.skip(i as int)) {
                    Some(p2) => {
                        assert(views_of(startv) + p2.0 =~= p2.0);
                    },
                    None => {},
                }
            }
            rr
        },
    }
}

/// Parse a whole bare (legacy) document into a collection.
#[verifier::rlimit(100)]
pub fn e_store(s: &Vec<char>) -> (r: Option<Store>)
    ensures
        match ps_store_text(s@) {
            None => r is None,
            Some(v) => r matches Some(st) && st@ == v,
        },
{
    proof {
        assert(s@.skip(0) =~= s@);
    }
    let i1 = match e_tok(s, 0, "{") {
        Some(j) => j,
        None => {
            return None;
        },
    };
    let i2 = match e_tok(s, i1, "\"next_id\"") {
        Some(j) => j,
        None => {
            return None;
        },
    };
    let i3 = match e_tok(s, i2, ":") {
        Some(j) => j,
        None => {
            return None;
        },
    };
    let (nid, i4) = match e_num_tok(s, i3) {
        Some(q) => q,
        None => {
            return None;
        },
    };
    if nid > usize::MAX as u64 {
        return None;
    }
    let i5 = match e_tok(s, i4, ",") {
        Some(j) => j,
        None => {
            return None;
        },
    };
    let i6 = match e_tok(s, i5, "\"vault_items\"") {
        Some(j) => j,
        None => {
            return None;
        },
    };
    let i7 = match e_tok(s, i6, ":") {
        Some(j) => j,
        None => {
            return None;
        },
    };
    let i8 = match e_tok(s, i7, "[") {
        Some(j) => j,
        None => {
            return None;
        },
    };
    let (items, i9) = match e_vault_list(s, i8) {
        Some(q) => q,
        None => {
            return None;
        },
    };
    let i10 = match e_tok(s, i9, "}") {
        Some(j) => j,
        None => {
            return None;
        },
    };
    let iend = e_skip_ws(s, i10);
    if iend != s.len() {
        proof {
            assert(skip_ws(s@.skip(i10 as int)).len() > 0);
        }
        return None;
    }
    let st = Store::from_parts(nid as usize, items);
    proof {
        assert(skip_ws(s@.skip(i10 as int)).len() == 0);
        assert(st@ =~= ps_store_text(s@).unwrap());
    }
    Some(st)
}

/// Parse a whole container document into its textual fields.
#[verifier::rlimit(100)]
pub fn e_container(s: &Vec<char>) -> (r: Option<(Vec<char>, u32, u32, Vec<char>)>)
    ensures
        match ps_container_text(s@) {
            None => r is None,
            Some(ct) => r matches Some(q) && q.0@ == ct.salt_b64 && q.1 as int == ct.iterations
                && q.2 as int == ct.memory_kib && q.3@ == ct.blob_b64,
        },
{
    proof {
        assert(s@.skip(0) =~= s@);
    }
    let i1 = match e_tok(s, 0, "{") {
        Some(j) => j,
        None => {
            return None;
        },
    };
    let i2 = match e_tok(s, i1, "\"salt_b64\"") {
        Some(j) => j,
        None => {
            return None;
        },
    };
    let i3 = match e_tok(s, i2, ":") {
        Some(j) => j,
        None => {
            return None;
        },
    };
    let (salt, i4) = match e_str_tok(s, i3) {
        Some(q) => q,
        None => {
            return None;
        },
    };
    let i5 = match e_tok(s, i4, ",") {
        Some(j) => j,
        None => {
            return None;
        },
    };
    let i6 = match e_tok(s, i5, "\"kdf_iterations\"") {
        Some(j) => j,
        None => {
            return None;
        },
    };
    let i7 = match e_tok(s, i6, ":") {
        Some(j) => j,
        None => {
            return None;
        },
    };
    let (iters, i8) = match e_num_tok(s, i7) {
        Some(q) => q,
        None => {
            return None;
        },
    };
    if iters > u32::MAX as u64 {
        return None;
    }
    let i9 = match e_tok(s, i8, ",") {
        Some(j) => j,
        None => {
            return None;
        },
    };
    let i10 = match e_tok(s, i9, "\"kdf_memory_kib\"") {
        Some(j) => j,
        None => {
            return None;
        },
    };
    let i11 = match e_tok(s, i10, ":") {
        Some(j) => j,
        None => {
            return None;
        },
    };
    let (mem, i12) = match e_num_tok(s, i11) {
        Some(q) => q,
        None => {
            return None;
        },
    };
    if mem > u32::MAX as u64 {
        return None;
    }
    let i13 = match e_tok(s, i12, ",") {
        Some(j) => j,
        None => {
            return None;
        },
    };
    let i14 = match e_tok(s, i13, "\"blob_b64\"") {
        Some(j) => j,
        None => {
            return None;
        },
    };
    let i15 = match e_tok(s, i14, ":") {
        Some(j) => j,
        None => {
            return None;
        },
    };
    let (blob, i16) = match e_str_tok(s, i15) {
        Some(q) => q,
        None => {
            return None;
        },
    };
    let i17 = match e_tok(s, i16, "}") {
        Some(j) => j,
        None => {
            return None;
        },
    };
    let iend = e_skip_ws(s, i17);
    if iend != s.len() {
        proof {
            assert(skip_ws(s@.skip(i17 as int)).len() > 0);
        }
        return None;
    }
    proof {
        assert(skip_ws(s@.skip(i17 as int)).len() == 0);
    }
    Some((salt, iters as u32, mem as u32, blob))
}

} // verus!
