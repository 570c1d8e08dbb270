//! The executable emitter for the on-disk text format.  Every function is
//! proved to append exactly the canonical text defined in
//! [`crate::format`].

use vstd::prelude::*;

use crate::format::{
    container_json, digits_of, escape_char, escape_str, hex_digit_ch, items_json, json_string,
    store_json, vault_json, ContainerText,
};
use crate::primitives::str_chars;
use crate::vault::{Store, Vault};

verus! {

fn emit_lit(out: &mut Vec<char>, lit: &str)
    ensures
        final(out)@ == old(out)@ + lit@,
{
    let mut l = str_chars(lit);
    out.append(&mut l);
}

fn hex_char(v: u32) -> (c: char)
    requires
        v < 16,
    ensures
        c == hex_digit_ch(v as int),
{
    if v < 10 {
        (48 + v as u8) as char
    } else {
        (87 + v as u8) as char
    }
}

fn emit_digits(out: &mut Vec<char>, n: u64)
    ensures
        final(out)@ == old(out)@ + digits_of(n as int),
    decreases n,
{
    if n < 10 {
        let c = hex_char(n as u32);
        out.push(c);
        proof {
            assert(final(out)@ =~= old(out)@ + digits_of(n as int));
        }
    } else {
        emit_digits(out, n / 10);
        let c = hex_char((n % 10) as u32);
        out.push(c);
        proof {
            assert(final(out)@ =~= old(out)@ + digits_of(n as int));
        }
    }
}

fn emit_escaped(out: &mut Vec<char>, t: &Vec<char>, k: usize)
    requires
        k <= t@.len(),
    ensures
        final(out)@ == old(out)@ + escape_str(t@.skip(k as int)),
    decreases t@.len() - k,
{
    if k == t.len() {
        proof {
            assert(t@.skip(k as int) =~= Seq::<char>::empty());
            assert(final(out)@ =~= old(out)@ + escape_str(t@.skip(k as int)));
        }
        return ;
    }
    let c = t[k];
    let ghost c0 = t@[k as int];
    if c == '"' {
        out.push('\\');
        out.push('"');
    } else if c == '\\' {
        out.push('\\');
        out.push('\\');
    } else if c == '\n' {
        out.push('\\');
        out.push('n');
    } else if c == '\r' {
        out.push('\\');
        out.push('r');
    } else if c == '\t' {
        out.push('\\');
        out.push('t');
    } else if (c as u32) < 32 {
        let u = c as u32;
        out.push('\\');
        out.push('u');
        out.push('0');
        out.push('0');
        let hi = hex_char(u / 16);
        out.push(hi);
        let lo = hex_char(u % 16);
        out.push(lo);
    } else {
        out.push(c);
    }
    let ghost mid = out@;
    proof {
        assert(mid =~= old(out)@ + escape_char(c0));
        assert(t@.skip(k as int).skip(1) =~= t@.skip(k as int + 1));
    }
    emit_escaped(out, t, k + 1);
    proof {
        assert(escape_str(t@.skip(k as int)) == escape_char(c0) + escape_str(t@.skip(k as int + 1)));
        assert(final(out)@ =~= old(out)@ + escape_str(t@.skip(k as int)));
    }
}

fn emit_string_chars(out: &mut Vec<char>, t: &Vec<char>)
    ensures
        final(out)@ == old(out)@ + json_string(t@),
{
    out.push('"');
    proof {
        assert(t@.skip(0) =~= t@);
    }
    emit_escaped(out, t, 0);
    out.push('"');
    proof {
        assert(final(out)@ =~= old(out)@ + json_string(t@));
    }
}

fn emit_string(out: &mut Vec<char>, s: &String)
    ensures
        final(out)@ == old(out)@ + json_string(s@),
{
    let t = str_chars(s.as_str());
    emit_string_chars(out, &t);
}

fn emit_vault(out: &mut Vec<char>, v: &Vault)
    ensures
        final(out)@ == old(out)@ + vault_json(v@),
{
    emit_lit(out, "{");
    emit_lit(out, "\"id\"");
    emit_lit(out, ":");
    emit_digits(out, v.id as u64);
    emit_lit(out, ",");
    emit_lit(out, "\"service\"");
    emit_lit(out, ":");
    emit_string(out, &v.service);
    emit_lit(out, ",");
    emit_lit(out, "\"username\"");
    emit_lit(out, ":");
    emit_string(out, &v.username);
    emit_lit(out, ",");
    emit_lit(out, "\"password\"");
    emit_lit(out, ":");
    emit_string(out, &v.password);
    emit_lit(out, "}");
    proof {
        assert(final(out)@ =~= old(out)@ + vault_json(v@));
    }
}

fn emit_items(out: &mut Vec<char>, items: &Vec<Vault>, k: usize)
    requires
        k <= items@.len(),
    ensures
        final(out)@ == old(out)@ + items_json(crate::parse::views_of(items@).skip(k as int)),
    decreases items@.len() - k,
{
    let ghost vs = crate::parse::views_of(items@);
    if k == items.len() {
        proof {
            assert(vs.skip(k as int) =~= Seq::<crate::vault::VaultView>::empty());
            assert(final(out)@ =~= old(out)@ + items_json(vs.skip(k as int)));
        }
        return ;
    }
    emit_vault(out, &items[k]);
    proof {
        assert(vs.skip(k as int)[0] == items@[k as int]@);
    }
    if k + 1 == items.len() {
        proof {
            assert(vs.skip(k as int).len() == 1);
            assert(final(out)@ =~= old(out)@ + items_json(vs.skip(k as int)));
        }
    } else {
        emit_lit(out, ",");
        let ghost mid = out@;
        proof {
            assert(vs.skip(k as int).skip(1) =~= vs.skip(k as int + 1));
        }
        emit_items(out, items, k + 1);
        proof {
            assert(vs.skip(k as int).len() > 1);
            assert(items_json(vs.skip(k as int)) == vault_json(vs.skip(k as int)[0]) + ","@
                + items_json(vs.skip(k as int + 1)));
            assert(final(out)@ =~= old(out)@ + items_json(vs.skip(k as int)));
        }
    }
}

/// Emit the canonical bare (legacy) document of a collection.
pub fn emit_store(out: &mut Vec<char>, st: &Store)
    ensures
        final(out)@ == old(out)@ + store_json(st@),
{
    emit_lit(out, "{");
    emit_lit(out, "\"next_id\"");
    emit_lit(out, ":");
    emit_digits(out, st.next_id() as u64);
    emit_lit(out, ",");
    emit_lit(out, "\"vault_items\"");
    emit_lit(out, ":");
    emit_lit(out, "[");
    let items = st.list();
    proof {
        assert(crate::parse::views_of(items@) =~= st@.items);
        assert(crate::parse::views_of(items@).skip(0) =~= st@.items);
    }
    emit_items(out, items, 0);
    emit_lit(out, "]");
    emit_lit(out, "}");
    proof {
        assert(final(out)@ =~= old(out)@ + store_json(st@));
    }
}

/// Emit the canonical container document from its textual fields.
pub fn emit_container(out: &mut Vec<char>, salt_b64: &Vec<char>, iterations: u32, memory_kib: u32, blob_b64: &Vec<char>)
    ensures
        final(out)@ == old(out)@ + container_json(ContainerText {
            salt_b64: salt_b64@,
            iterations: iterations as int,
            memory_kib: memory_kib as int,
            blob_b64: blob_b64@,
        }),
{
    emit_lit(out, "{");
    emit_lit(out, "\"salt_b64\"");
    emit_lit(out, ":");
    emit_string_chars(out, salt_b64);
    emit_lit(out, ",");
    emit_lit(out, "\"kdf_iterations\"");
    emit_lit(out, ":");
    emit_digits(out, iterations as u64);
    emit_lit(out, ",");
    emit_lit(out, "\"kdf_memory_kib\"");
    emit_lit(out, ":");
    emit_digits(out, memory_kib as u64);
    emit_lit(out, ",");
    emit_lit(out, "\"blob_b64\"");
    emit_lit(out, ":");
    emit_string_chars(out, blob_b64);
    emit_lit(out, "}");
    proof {
        assert(final(out)@ =~= old(out)@ + container_json(ContainerText {
            salt_b64: salt_b64@,
            iterations: iterations as int,
            memory_kib: memory_kib as int,
            blob_b64: blob_b64@,
        }));
    }
}

} // verus!
