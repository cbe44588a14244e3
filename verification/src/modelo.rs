//! The mathematical model of the identifier: character classes,
//! character values, mask removal, normalization, the weighted
//! checksums and the validity predicate.

use vstd::prelude::*;

verus! {

/// Mask separators that formatting may insert into an identifier.
pub open spec fn is_mask_char(c: char) -> bool {
    c == '.' || c == '/' || c == '-'
}

/// ASCII decimal digits.
pub open spec fn is_digit_char(c: char) -> bool {
    '0' <= c && c <= '9'
}

/// ASCII uppercase letters.
pub open spec fn is_upper_char(c: char) -> bool {
    'A' <= c && c <= 'Z'
}

/// ASCII lowercase letters.
pub open spec fn is_lower_char(c: char) -> bool {
    'a' <= c && c <= 'z'
}

/// Characters admitted in an identifier base: digits and uppercase letters.
pub open spec fn is_base_char(c: char) -> bool {
    is_digit_char(c) || is_upper_char(c)
}

/// Characters the validator accepts in raw input: base characters and
/// mask separators, with lowercase letters rejected.
pub open spec fn is_permitido_estrito(c: char) -> bool {
    is_base_char(c) || is_mask_char(c)
}

/// Characters the check-digit computation accepts in raw input: the
/// strict set, case-insensitively.
pub open spec fn is_permitido(c: char) -> bool {
    is_permitido_estrito(c) || is_lower_char(c)
}

pub open spec fn todos_permitidos_estritos(s: Seq<char>) -> bool {
    forall|i: int| 0 <= i < s.len() ==> is_permitido_estrito(#[trigger] s[i])
}

pub open spec fn todos_permitidos(s: Seq<char>) -> bool {
    forall|i: int| 0 <= i < s.len() ==> is_permitido(#[trigger] s[i])
}

/// Uppercases one ASCII lowercase letter; any other character is kept.
pub open spec fn maiuscula(c: char) -> char {
    if is_lower_char(c) {
        ((c as u32 - 32) as u8) as char
    } else {
        c
    }
}

/// The sequence with the mask separators removed; every other
/// character keeps its place and its case.
pub open spec fn sem_mascara(s: Seq<char>) -> Seq<char>
    decreases s.len(),
{
    if s.len() == 0 {
        Seq::empty()
    } else if is_mask_char(s.last()) {
        sem_mascara(s.drop_last())
    } else {
        sem_mascara(s.drop_last()).push(s.last())
    }
}

/// The normalized form of raw input: mask separators removed and
/// ASCII letters uppercased.
pub open spec fn normalizado(s: Seq<char>) -> Seq<char>
    decreases s.len(),
{
    if s.len() == 0 {
        Seq::empty()
    } else if is_mask_char(s.last()) {
        normalizado(s.drop_last())
    } else {
        normalizado(s.drop_last()).push(maiuscula(s.last()))
    }
}

/// The numeric value a base character contributes to a checksum: its
/// code point minus the code point of '0'. Digits keep their face
/// value 0 through 9; uppercase letters follow at 17 through 42.
pub open spec fn valor_caractere(c: char) -> int {
    c as int - '0' as int
}

/// First-digit weights over the 12 base positions.
pub open spec fn pesos_dv1() -> Seq<int> {
    seq![5, 4, 3, 2, 9, 8, 7, 6, 5, 4, 3, 2]
}

/// Second-digit weights over the base plus the first check digit.
pub open spec fn pesos_dv2() -> Seq<int> {
    seq![6, 5, 4, 3, 2, 9, 8, 7, 6, 5, 4, 3, 2]
}

/// Sum of the first `n` character values, each multiplied by the
/// weight at its own position.
pub open spec fn soma_ponderada(s: Seq<char>, pesos: Seq<int>, n: int) -> int
    decreases n,
{
    if n <= 0 {
        0
    } else {
        soma_ponderada(s, pesos, n - 1) + valor_caractere(s[n - 1]) * pesos[n - 1]
    }
}

/// The decimal digit character for a value between 0 and 9.
pub open spec fn digito_char(d: int) -> char {
    if d == 0 {
        '0'
    } else if d == 1 {
        '1'
    } else if d == 2 {
        '2'
    } else if d == 3 {
        '3'
    } else if d == 4 {
        '4'
    } else if d == 5 {
        '5'
    } else if d == 6 {
        '6'
    } else if d == 7 {
        '7'
    } else if d == 8 {
        '8'
    } else {
        '9'
    }
}

/// One check digit: the weighted sum reduced modulo 11, a remainder
/// under 2 giving '0' and any other remainder giving 11 minus itself.
pub open spec fn digito(s: Seq<char>, pesos: Seq<int>) -> char {
    let resto = soma_ponderada(s, pesos, s.len() as int) % 11;
    if resto < 2 {
        '0'
    } else {
        digito_char(11 - resto)
    }
}

/// Both check digits of a base: the second is computed over the base
/// extended with the first, under its own weight table.
pub open spec fn dv_base(b: Seq<char>) -> Seq<char> {
    let d1 = digito(b, pesos_dv1());
    let d2 = digito(b.push(d1), pesos_dv2());
    seq![d1, d2]
}

pub open spec fn todos_zeros(s: Seq<char>) -> bool {
    forall|i: int| 0 <= i < s.len() ==> #[trigger] s[i] == '0'
}

/// A well-formed base: exactly 12 base characters.
pub open spec fn formato_base(s: Seq<char>) -> bool {
    s.len() == 12 && (forall|i: int| 0 <= i < s.len() ==> is_base_char(#[trigger] s[i]))
}

/// A base on which check digits are defined: well-formed and not all zeros.
pub open spec fn base_valida(b: Seq<char>) -> bool {
    formato_base(b) && !todos_zeros(b)
}

/// A well-formed full identifier: 12 base characters followed by
/// 2 decimal digits.
pub open spec fn formato_completo(s: Seq<char>) -> bool {
    &&& s.len() == 14
    &&& forall|i: int| 0 <= i < 12 ==> is_base_char(#[trigger] s[i])
    &&& is_digit_char(s[12])
    &&& is_digit_char(s[13])
}

/// The raw inputs on which check-digit computation succeeds: only
/// accepted characters, at least 12 once normalized, and the first 12
/// normalized characters form a valid base.
pub open spec fn entrada_dv_valida(s: Seq<char>) -> bool {
    &&& todos_permitidos(s)
    &&& normalizado(s).len() >= 12
    &&& base_valida(normalizado(s).take(12))
}

/// The message reported for each rejected check-digit input, following
/// the order in which the checks are applied.
pub open spec fn mensagem_erro_dv(s: Seq<char>) -> Seq<char> {
    if !todos_permitidos(s) {
        "CNPJ contem caracteres nao permitidos"@
    } else if normalizado(s).len() < 12 {
        "CNPJ deve ter 12 caracteres para calcular o DV"@
    } else if !formato_base(normalizado(s).take(12)) {
        "CNPJ nao esta no formato correto"@
    } else {
        "CNPJ nao pode conter apenas zeros"@
    }
}

/// The message reported for a character without a checksum value.
pub open spec fn mensagem_caractere_invalido(c: char) -> Seq<char> {
    "Caractere invalido: "@.push(c)
}

/// A valid identifier: only strictly accepted raw characters, a
/// 14-character normalized form of the right shape whose base is not
/// all zeros, and trailing digits equal to the base's check digits.
pub open spec fn cnpj_valido(s: Seq<char>) -> bool {
    &&& todos_permitidos_estritos(s)
    &&& normalizado(s).len() == 14
    &&& formato_completo(normalizado(s))
    &&& base_valida(normalizado(s).take(12))
    &&& normalizado(s).skip(12) == dv_base(normalizado(s).take(12))
}

/// Normalization leaves a sequence of base characters unchanged.
pub proof fn lema_normalizado_identidade(s: Seq<char>)
    requires
        forall|i: int| 0 <= i < s.len() ==> is_base_char(#[trigger] s[i]),
    ensures
        normalizado(s) == s,
    decreases s.len(),
{
    if s.len() == 0 {
        assert(normalizado(s) =~= s);
    } else {
        assert(forall|i: int|
            0 <= i < s.drop_last().len() ==> is_base_char(#[trigger] s.drop_last()[i]));
        lema_normalizado_identidade(s.drop_last());
        assert(is_base_char(s.last()));
        assert(normalizado(s) =~= s);
    }
}

/// Mask removal leaves no mask separator behind.
proof fn lema_sem_mascara_livre(s: Seq<char>)
    ensures
        forall|i: int|
            0 <= i < sem_mascara(s).len() ==> !is_mask_char(#[trigger] sem_mascara(s)[i]),
    decreases s.len(),
{
    if s.len() > 0 {
        lema_sem_mascara_livre(s.drop_last());
        let sub = sem_mascara(s.drop_last());
        if !is_mask_char(s.last()) {
            assert forall|i: int|
                0 <= i < sem_mascara(s).len() implies !is_mask_char(
                #[trigger] sem_mascara(s)[i],
            ) by {
                if i < sub.len() {
                    assert(sem_mascara(s)[i] == sub[i]);
                } else {
                    assert(sem_mascara(s)[i] == s.last());
                }
            }
        }
    }
}

/// Mask removal leaves a sequence without mask separators unchanged.
proof fn lema_sem_mascara_identidade(s: Seq<char>)
    requires
        forall|i: int| 0 <= i < s.len() ==> !is_mask_char(#[trigger] s[i]),
    ensures
        sem_mascara(s) == s,
    decreases s.len(),
{
    if s.len() == 0 {
        assert(sem_mascara(s) =~= s);
    } else {
        assert(forall|i: int|
            0 <= i < s.drop_last().len() ==> !is_mask_char(#[trigger] s.drop_last()[i]));
        lema_sem_mascara_identidade(s.drop_last());
        assert(sem_mascara(s) =~= s);
    }
}

/// Mask removal is idempotent: removing the mask a second time
/// changes nothing.
pub proof fn lema_remover_mascara_idempotente(s: Seq<char>)
    ensures
        sem_mascara(sem_mascara(s)) == sem_mascara(s),
{
    lema_sem_mascara_livre(s);
    lema_sem_mascara_identidade(sem_mascara(s));
}

/// A check digit is always a decimal digit character.
pub proof fn lema_digito_eh_digito(s: Seq<char>, pesos: Seq<int>)
    ensures
        is_digit_char(digito(s, pesos)),
{
}

/// A valid base is accepted by check-digit computation, and its check
/// digits are exactly two decimal digit characters.
pub proof fn lema_dv_de_base_valida(b: Seq<char>)
    requires
        base_valida(b),
    ensures
        entrada_dv_valida(b),
        dv_base(b).len() == 2,
        is_digit_char(dv_base(b)[0]),
        is_digit_char(dv_base(b)[1]),
{
    lema_normalizado_identidade(b);
    assert(normalizado(b).take(12) =~= b);
    lema_digito_eh_digito(b, pesos_dv1());
    lema_digito_eh_digito(b.push(digito(b, pesos_dv1())), pesos_dv2());
}

/// A valid base followed by its own check digits is a valid identifier.
pub proof fn lema_validacao_apos_dv(b: Seq<char>)
    requires
        base_valida(b),
    ensures
        cnpj_valido(b + dv_base(b)),
{
    lema_dv_de_base_valida(b);
    let t = b + dv_base(b);
    assert(t[12] == dv_base(b)[0] && t[13] == dv_base(b)[1]);
    assert(forall|i: int| 0 <= i < t.len() ==> is_base_char(#[trigger] t[i]));
    lema_normalizado_identidade(t);
    assert(normalizado(t).take(12) =~= b);
    assert(normalizado(t).skip(12) =~= dv_base(b));
}

/// Replacing the trailing digits of a valid base's identifier with any
/// digit pair other than the computed check digits makes it invalid.
pub proof fn lema_sensibilidade_digitos(b: Seq<char>, d1: char, d2: char)
    requires
        base_valida(b),
        is_digit_char(d1),
        is_digit_char(d2),
        seq![d1, d2] != dv_base(b),
    ensures
        !cnpj_valido(b + seq![d1, d2]),
{
    let t = b + seq![d1, d2];
    assert(t[12] == d1 && t[13] == d2);
    assert(forall|i: int| 0 <= i < t.len() ==> is_base_char(#[trigger] t[i]));
    lema_normalizado_identidade(t);
    if cnpj_valido(t) {
        assert(normalizado(t).take(12) =~= b);
        assert(normalizado(t).skip(12) =~= seq![d1, d2]);
        assert(seq![d1, d2] == dv_base(b));
    }
}

/// An identifier whose normalized form is 14 zero characters is never
/// valid, whatever else holds of it.
pub proof fn lema_zeros_invalido(s: Seq<char>)
    requires
        normalizado(s).len() == 14,
        todos_zeros(normalizado(s)),
    ensures
        !cnpj_valido(s),
{
    assert(forall|j: int| 0 <= j < 12 ==> #[trigger] normalizado(s).take(12)[j] == '0');
}

/// One character outside the strictly accepted set makes the whole
/// input invalid.
pub proof fn lema_caractere_proibido(s: Seq<char>, i: int)
    requires
        0 <= i < s.len(),
        !is_permitido_estrito(s[i]),
    ensures
        !cnpj_valido(s),
{
}

} // verus!
