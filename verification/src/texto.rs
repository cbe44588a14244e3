//! Executable character and string helpers, each tied to the model.

use vstd::prelude::*;
use vstd::string::StrSliceExecFns;

use crate::modelo::is_digit_char;
use crate::modelo::is_lower_char;
use crate::modelo::is_mask_char;
use crate::modelo::is_permitido;
use crate::modelo::is_permitido_estrito;
use crate::modelo::is_upper_char;
use crate::modelo::maiuscula;
use crate::modelo::normalizado;
use crate::modelo::pesos_dv1;
use crate::modelo::pesos_dv2;
use crate::modelo::todos_permitidos;
use crate::modelo::todos_permitidos_estritos;

verus! {

/// Relies on String::push: appends exactly the given character at the end.
#[verifier::external_body]
pub(crate) fn empurrar_char(s: &mut String, c: char)
    ensures
        final(s)@ == old(s)@.push(c),
{
    s.push(c);
}

pub(crate) fn eh_mascara(c: char) -> (r: bool)
    ensures
        r == is_mask_char(c),
{
    c == '.' || c == '/' || c == '-'
}

pub(crate) fn eh_digito(c: char) -> (r: bool)
    ensures
        r == is_digit_char(c),
{
    let u = c as u32;
    48 <= u && u <= 57
}

pub(crate) fn eh_maiuscula(c: char) -> (r: bool)
    ensures
        r == is_upper_char(c),
{
    let u = c as u32;
    65 <= u && u <= 90
}

pub(crate) fn eh_minuscula(c: char) -> (r: bool)
    ensures
        r == is_lower_char(c),
{
    let u = c as u32;
    97 <= u && u <= 122
}

pub(crate) fn eh_permitido_estrito(c: char) -> (r: bool)
    ensures
        r == is_permitido_estrito(c),
{
    eh_digito(c) || eh_maiuscula(c) || eh_mascara(c)
}

pub(crate) fn eh_permitido(c: char) -> (r: bool)
    ensures
        r == is_permitido(c),
{
    eh_permitido_estrito(c) || eh_minuscula(c)
}

pub(crate) fn maiuscula_exec(c: char) -> (r: char)
    ensures
        r == maiuscula(c),
{
    let u = c as u32;
    if 97 <= u && u <= 122 {
        ((u - 32) as u8) as char
    } else {
        c
    }
}

/// Whether every character of the string is strictly accepted raw input.
pub(crate) fn somente_permitidos_estritos(s: &str) -> (r: bool)
    ensures
        r == todos_permitidos_estritos(s@),
{
    let n = s.unicode_len();
    let mut i: usize = 0;
    while i < n
        invariant
            0 <= i <= n,
            n == s@.len(),
            forall|j: int| 0 <= j < i ==> is_permitido_estrito(#[trigger] s@[j]),
        decreases n - i,
    {
        if !eh_permitido_estrito(s.get_char(i)) {
            return false;
        }
        i = i + 1;
    }
    true
}

/// Whether every character of the string is accepted raw input,
/// case-insensitively.
pub(crate) fn somente_permitidos(s: &str) -> (r: bool)
    ensures
        r == todos_permitidos(s@),
{
    let n = s.unicode_len();
    let mut i: usize = 0;
    while i < n
        invariant
            0 <= i <= n,
            n == s@.len(),
            forall|j: int| 0 <= j < i ==> is_permitido(#[trigger] s@[j]),
        decreases n - i,
    {
        if !eh_permitido(s.get_char(i)) {
            return false;
        }
        i = i + 1;
    }
    true
}

/// Builds the normalized form of raw input: mask separators dropped,
/// ASCII letters uppercased.
pub(crate) fn normalizar(s: &str) -> (r: String)
    ensures
        r@ == normalizado(s@),
{
    let n = s.unicode_len();
    let mut r = String::new();
    let mut i: usize = 0;
    while i < n
        invariant
            0 <= i <= n,
            n == s@.len(),
            r@ == normalizado(s@.take(i as int)),
        decreases n - i,
    {
        let c = s.get_char(i);
        proof {
            assert(s@.take(i + 1).drop_last() =~= s@.take(i as int));
            assert(s@.take(i + 1).last() == c);
        }
        if !eh_mascara(c) {
            empurrar_char(&mut r, maiuscula_exec(c));
        }
        i = i + 1;
    }
    proof {
        assert(s@.take(n as int) =~= s@);
    }
    r
}

/// The weight table for the first check digit.
pub(crate) fn tabela_pesos_dv1() -> (v: Vec<u8>)
    ensures
        v@.map_values(|p: u8| p as int) == pesos_dv1(),
{
    let v: Vec<u8> = vec![5, 4, 3, 2, 9, 8, 7, 6, 5, 4, 3, 2];
    proof {
        assert(v@.map_values(|p: u8| p as int) =~= pesos_dv1());
    }
    v
}

/// The weight table for the second check digit.
pub(crate) fn tabela_pesos_dv2() -> (v: Vec<u8>)
    ensures
        v@.map_values(|p: u8| p as int) == pesos_dv2(),
{
    let v: Vec<u8> = vec![6, 5, 4, 3, 2, 9, 8, 7, 6, 5, 4, 3, 2];
    proof {
        assert(v@.map_values(|p: u8| p as int) =~= pesos_dv2());
    }
    v
}

} // verus!
