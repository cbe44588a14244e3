//! Validation and check-digit computation for alphanumeric CNPJ
//! identifiers: 14-character codes made of a 12-character alphanumeric
//! base followed by 2 numeric check digits.

use vstd::prelude::*;
use vstd::string::StrSliceExecFns;

mod erro;
mod modelo;
mod texto;

pub use erro::CNPJError;

use modelo::base_valida;
use modelo::cnpj_valido;
use modelo::digito;
use modelo::dv_base;
use modelo::entrada_dv_valida;
use modelo::formato_base;
use modelo::is_base_char;
use modelo::lema_digito_eh_digito;
use modelo::lema_normalizado_identidade;
use modelo::mensagem_caractere_invalido;
use modelo::mensagem_erro_dv;
use modelo::normalizado;
use modelo::pesos_dv1;
use modelo::pesos_dv2;
use modelo::sem_mascara;
use modelo::soma_ponderada;
use modelo::todos_permitidos;
use modelo::todos_zeros;
use modelo::valor_caractere;
use texto::eh_digito;
use texto::eh_mascara;
use texto::eh_maiuscula;
use texto::empurrar_char;
use texto::normalizar;
use texto::somente_permitidos;
use texto::somente_permitidos_estritos;
use texto::tabela_pesos_dv1;
use texto::tabela_pesos_dv2;

verus! {

/// Removes the mask separators `.`, `/` and `-` from an identifier,
/// keeping every other character in place.
pub fn remover_mascara_cnpj(cnpj: &str) -> (r: String)
    ensures
        r@ == sem_mascara(cnpj@),
{
    let n = cnpj.unicode_len();
    let mut r = String::new();
    let mut i: usize = 0;
    while i < n
        invariant
            0 <= i <= n,
            n == cnpj@.len(),
            r@ == sem_mascara(cnpj@.take(i as int)),
        decreases n - i,
    {
        let c = cnpj.get_char(i);
        proof {
            assert(cnpj@.take(i + 1).drop_last() =~= cnpj@.take(i as int));
            assert(cnpj@.take(i + 1).last() == c);
        }
        if !eh_mascara(c) {
            empurrar_char(&mut r, c);
        }
        i = i + 1;
    }
    proof {
        assert(cnpj@.take(n as int) =~= cnpj@);
    }
    r
}

/// Whether the identifier consists of the zero character alone.
pub fn apenas_zeros(cnpj: &str) -> (r: bool)
    ensures
        r == todos_zeros(cnpj@),
{
    let n = cnpj.unicode_len();
    let mut i: usize = 0;
    while i < n
        invariant
            0 <= i <= n,
            n == cnpj@.len(),
            forall|j: int| 0 <= j < i ==> #[trigger] cnpj@[j] == '0',
        decreases n - i,
    {
        if cnpj.get_char(i) != '0' {
            return false;
        }
        i = i + 1;
    }
    true
}

/// Maps one character to its checksum value: digits to their face
/// value, uppercase letters to 17 through 42; anything else is an error.
pub fn converter_caractere(c: char) -> (r: Result<u8, CNPJError>)
    ensures
        r is Ok <==> is_base_char(c),
        r is Ok ==> r->Ok_0 == valor_caractere(c),
        r is Err ==> (r->Err_0)@ == mensagem_caractere_invalido(c),
{
    let u = c as u32;
    if (48 <= u && u <= 57) || (65 <= u && u <= 90) {
        Ok((u - 48) as u8)
    } else {
        let mut m = "Caractere invalido: ".to_owned();
        empurrar_char(&mut m, c);
        Err(CNPJError::new(m.as_str()))
    }
}

/// Computes one check digit over the identifier and a parallel weight
/// table: the weighted sum of the character values, reduced modulo 11.
/// Fails if the identifier is longer than the weight table or holds a
/// character without a value.
pub fn calcular_digito(cnpj: &str, pesos: &[u8]) -> (r: Result<char, CNPJError>)
    ensures
        r is Ok <==> (cnpj@.len() <= pesos@.len() && (forall|i: int|
            0 <= i < cnpj@.len() ==> is_base_char(#[trigger] cnpj@[i]))),
        r is Ok ==> r->Ok_0 == digito(cnpj@, pesos@.map_values(|p: u8| p as int)),
        r is Err && cnpj@.len() > pesos@.len() ==> (r->Err_0)@ == (
        "Tamanho do CNPJ incompativel com os pesos")@,
        r is Err && cnpj@.len() <= pesos@.len() ==> (exists|i: int|
            0 <= i < cnpj@.len() && !is_base_char(cnpj@[i]) && (r->Err_0)@
                == mensagem_caractere_invalido(#[trigger] cnpj@[i])),
{
    let n = cnpj.unicode_len();
    if n > pesos.len() {
        return Err(CNPJError::new("Tamanho do CNPJ incompativel com os pesos"));
    }
    let ghost pesos_int = pesos@.map_values(|p: u8| p as int);
    let mut soma: u128 = 0;
    let mut i: usize = 0;
    while i < n
        invariant
            0 <= i <= n,
            n == cnpj@.len(),
            n <= pesos@.len(),
            pesos_int == pesos@.map_values(|p: u8| p as int),
            forall|j: int| 0 <= j < i ==> is_base_char(#[trigger] cnpj@[j]),
            soma == soma_ponderada(cnpj@, pesos_int, i as int),
            soma <= 65025 * (i as int),
        decreases n - i,
    {
        let c = cnpj.get_char(i);
        let valor = match converter_caractere(c) {
            Ok(v) => v,
            Err(e) => {
                return Err(e);
            },
        };
        let peso = pesos[i];
        proof {
            assert((valor as u128) * (peso as u128) <= 65025) by (nonlinear_arith)
                requires
                    valor <= 255,
                    peso <= 255,
            ;
            assert(pesos_int[i as int] == peso as int);
        }
        let termo = (valor as u128) * (peso as u128);
        soma = soma + termo;
        i = i + 1;
    }
    let resto = (soma % 11) as u8;
    let dv = if resto < 2 {
        '0'
    } else {
        let d = 11 - resto;
        if d == 1 {
            '1'
        } else if d == 2 {
            '2'
        } else if d == 3 {
            '3'
        } else if d == 4 {
            '4'
        } else if d == 5 {
            '5'
        } else if d == 6 {
            '6'
        } else if d == 7 {
            '7'
        } else if d == 8 {
            '8'
        } else {
            '9'
        }
    };
    Ok(dv)
}

/// Decides whether a raw string is a valid identifier: only strictly
/// accepted characters, a 14-character normalized form of 12 base
/// characters and 2 decimal digits, a base that is not all zeros, and
/// trailing digits equal to the check digits computed from the base.
/// Every failure collapses to `false`; the function never errors.
pub fn is_valid(cnpj: &str) -> (r: bool)
    ensures
        r == cnpj_valido(cnpj@),
{
    if !somente_permitidos_estritos(cnpj) {
        return false;
    }
    let norm = normalizar(cnpj);
    if norm.as_str().unicode_len() != 14 {
        return false;
    }
    if apenas_zeros(norm.as_str()) {
        proof {
            assert(forall|j: int|
                0 <= j < 12 ==> #[trigger] normalizado(cnpj@).take(12)[j] == '0');
        }
        return false;
    }
    let mut i: usize = 0;
    while i < 12
        invariant
            0 <= i <= 12,
            norm@ == normalizado(cnpj@),
            norm@.len() == 14,
            forall|j: int| 0 <= j < i ==> is_base_char(#[trigger] norm@[j]),
        decreases 12 - i,
    {
        let c = norm.as_str().get_char(i);
        if !(eh_digito(c) || eh_maiuscula(c)) {
            return false;
        }
        i = i + 1;
    }
    let c12 = norm.as_str().get_char(12);
    let c13 = norm.as_str().get_char(13);
    if !eh_digito(c12) || !eh_digito(c13) {
        return false;
    }
    let base = norm.as_str().substring_char(0, 12);
    proof {
        assert(base@ =~= normalizado(cnpj@).take(12));
        lema_normalizado_identidade(base@);
        assert(normalizado(base@).take(12) =~= base@);
        assert(formato_base(base@));
    }
    let dv = match calcula_dv(base) {
        Ok(d) => d,
        Err(_) => {
            proof {
                assert(!base_valida(base@));
            }
            return false;
        },
    };
    let e0 = dv.as_str().get_char(0);
    let e1 = dv.as_str().get_char(1);
    let iguais = c12 == e0 && c13 == e1;
    proof {
        assert(normalizado(cnpj@).skip(12) =~= seq![c12, c13]);
        assert(dv@ == dv_base(normalizado(cnpj@).take(12)));
        assert(seq![e0, e1] =~= dv@);
        assert(seq![c12, c13][0] == c12 && seq![c12, c13][1] == c13);
        assert(seq![e0, e1][0] == e0 && seq![e0, e1][1] == e1);
        assert(base_valida(normalizado(cnpj@).take(12)));
    }
    iguais
}

/// Computes the two check digits of an identifier base. The raw input
/// may carry mask separators and lowercase letters; it is normalized,
/// cut to its first 12 characters, and must then form a well-formed
/// base that is not all zeros. The second digit is computed over the
/// base extended with the first.
pub fn calcula_dv(cnpj: &str) -> (r: Result<String, CNPJError>)
    ensures
        r is Ok <==> entrada_dv_valida(cnpj@),
        r is Ok ==> (r->Ok_0)@ == dv_base(normalizado(cnpj@).take(12)),
        r is Err ==> (r->Err_0)@ == mensagem_erro_dv(cnpj@),
{
    if !somente_permitidos(cnpj) {
        return Err(CNPJError::new("CNPJ contem caracteres nao permitidos"));
    }
    let norm = normalizar(cnpj);
    if norm.as_str().unicode_len() < 12 {
        return Err(CNPJError::new("CNPJ deve ter 12 caracteres para calcular o DV"));
    }
    let base = norm.as_str().substring_char(0, 12);
    proof {
        assert(base@ =~= normalizado(cnpj@).take(12));
    }
    let mut i: usize = 0;
    while i < 12
        invariant
            0 <= i <= 12,
            base@.len() == 12,
            base@ == normalizado(cnpj@).take(12),
            todos_permitidos(cnpj@),
            normalizado(cnpj@).len() >= 12,
            forall|j: int| 0 <= j < i ==> is_base_char(#[trigger] base@[j]),
        decreases 12 - i,
    {
        let c = base.get_char(i);
        if !(eh_digito(c) || eh_maiuscula(c)) {
            return Err(CNPJError::new("CNPJ nao esta no formato correto"));
        }
        i = i + 1;
    }
    assert(formato_base(base@));
    if apenas_zeros(base) {
        return Err(CNPJError::new("CNPJ nao pode conter apenas zeros"));
    }
    let pesos1 = tabela_pesos_dv1();
    proof {
        assert(pesos_dv1().len() == 12);
        assert(pesos1@.len() == 12);
    }
    let d1 = match calcular_digito(base, pesos1.as_slice()) {
        Ok(d) => d,
        Err(e) => {
            return Err(e);
        },
    };
    proof {
        lema_digito_eh_digito(base@, pesos_dv1());
    }
    let mut com_dv1 = base.to_owned();
    empurrar_char(&mut com_dv1, d1);
    let pesos2 = tabela_pesos_dv2();
    proof {
        assert(pesos_dv2().len() == 13);
        assert(pesos2@.len() == 13);
        assert(com_dv1@ =~= base@.push(d1));
        assert(d1 == digito(base@, pesos_dv1()));
        assert(forall|j: int| 0 <= j < com_dv1@.len() ==> is_base_char(#[trigger] com_dv1@[j]));
    }
    let d2 = match calcular_digito(com_dv1.as_str(), pesos2.as_slice()) {
        Ok(d) => d,
        Err(e) => {
            return Err(e);
        },
    };
    let mut r = String::new();
    empurrar_char(&mut r, d1);
    empurrar_char(&mut r, d2);
    proof {
        assert(r@ =~= dv_base(normalizado(cnpj@).take(12)));
    }
    Ok(r)
}

} // verus!
