use cnpj_alfanumerico::apenas_zeros;
use cnpj_alfanumerico::calcula_dv;
use cnpj_alfanumerico::calcular_digito;
use cnpj_alfanumerico::converter_caractere;
use cnpj_alfanumerico::is_valid;
use cnpj_alfanumerico::remover_mascara_cnpj;

#[test]
fn remocao_de_mascara_idempotente() {
    let uma_vez = remover_mascara_cnpj("12.ABC.345/01DE-35");
    let duas_vezes = remover_mascara_cnpj(&uma_vez);
    assert_eq!(duas_vezes, uma_vez);
    assert_eq!(remover_mascara_cnpj(""), "");
    assert_eq!(remover_mascara_cnpj("./-"), "");
    assert_eq!(remover_mascara_cnpj("a.b/c-d"), "abcd");
}

#[test]
fn dv_tem_dois_digitos_decimais() {
    for base in ["12ABC34501DE", "XYZ987654321", "000000000001", "ZZZZZZZZZZZZ"] {
        let dv = calcula_dv(base).unwrap();
        assert_eq!(dv.len(), 2);
        assert!(dv.chars().all(|c| c.is_ascii_digit()));
    }
}

#[test]
fn base_mais_dv_e_valido() {
    for base in ["12ABC34501DE", "XYZ987654321", "000000000001", "ZZZZZZZZZZZZ"] {
        let dv = calcula_dv(base).unwrap();
        let completo = format!("{}{}", base, dv);
        assert!(is_valid(&completo));
    }
}

#[test]
fn dv_alterado_invalida() {
    // "12ABC34501DE35" is valid; any other digit in either trailing
    // position must be rejected.
    for d in "0123456789".chars() {
        let com_primeiro = format!("12ABC34501DE{}5", d);
        assert_eq!(is_valid(&com_primeiro), d == '3');
        let com_segundo = format!("12ABC34501DE3{}", d);
        assert_eq!(is_valid(&com_segundo), d == '5');
    }
}

#[test]
fn zeros_nunca_validos() {
    assert!(!is_valid("00000000000000"));
    assert!(!is_valid("00.000.000/0000-00"));
    // A base of zeros with nonzero trailing digits fails inside the
    // check-digit computation and must also be rejected.
    assert!(!is_valid("00000000000012"));
}

#[test]
fn minusculas_e_simbolos_invalidos() {
    assert!(!is_valid("12abc34501de35"));
    assert!(!is_valid("12ABC34501DE3a"));
    assert!(!is_valid("12ABC34501DE3*"));
    assert!(!is_valid("12 ABC34501DE35"));
    assert!(!is_valid(""));
}

#[test]
fn calcula_dv_aceita_minusculas() {
    // The check-digit computation, unlike validation, accepts both
    // cases and uppercases before computing.
    assert_eq!(calcula_dv("12abc34501de").unwrap(), "35");
    assert_eq!(calcula_dv("12.abc.345/01de").unwrap(), "35");
}

#[test]
fn calcula_dv_trunca_entradas_longas() {
    // A normalized input longer than 12 characters keeps only its
    // first 12; shorter ones are rejected.
    assert_eq!(calcula_dv("12ABC34501DE35").unwrap(), "35");
    assert!(calcula_dv("12ABC34501D").is_err());
    assert!(calcula_dv("").is_err());
}

#[test]
fn erros_de_calcula_dv() {
    let proibido = calcula_dv("@#$%^&*()_+").unwrap_err();
    assert_eq!(proibido.mensagem().as_str(), "CNPJ contem caracteres nao permitidos");
    let curto = calcula_dv("12ABC34501D").unwrap_err();
    assert_eq!(curto.mensagem().as_str(), "CNPJ deve ter 12 caracteres para calcular o DV");
    let zeros = calcula_dv("000000000000").unwrap_err();
    assert_eq!(zeros.mensagem().as_str(), "CNPJ nao pode conter apenas zeros");
    let zeros_mascarados = calcula_dv("00.000.000/0000").unwrap_err();
    assert_eq!(zeros_mascarados.mensagem().as_str(), "CNPJ nao pode conter apenas zeros");
}

#[test]
fn valores_dos_caracteres() {
    assert_eq!(converter_caractere('0').unwrap(), 0);
    assert_eq!(converter_caractere('9').unwrap(), 9);
    assert_eq!(converter_caractere('A').unwrap(), 17);
    assert_eq!(converter_caractere('Z').unwrap(), 42);
    assert!(converter_caractere('a').is_err());
    assert!(converter_caractere('.').is_err());
    assert!(converter_caractere(' ').is_err());
    let erro = converter_caractere('x').unwrap_err();
    assert_eq!(erro.mensagem().as_str(), "Caractere invalido: x");
}

#[test]
fn digito_ponderado_exato() {
    let pesos1: [u8; 12] = [5, 4, 3, 2, 9, 8, 7, 6, 5, 4, 3, 2];
    let pesos2: [u8; 13] = [6, 5, 4, 3, 2, 9, 8, 7, 6, 5, 4, 3, 2];
    assert_eq!(calcular_digito("12ABC34501DE", &pesos1).unwrap(), '3');
    assert_eq!(calcular_digito("12ABC34501DE3", &pesos2).unwrap(), '5');
    // An empty input sums to zero, and a remainder under 2 gives '0'.
    assert_eq!(calcular_digito("", &pesos1).unwrap(), '0');
    // Longer than the weight table: the defensive size check fires.
    let incompativel = calcular_digito("ABC", &pesos1[..2]).unwrap_err();
    assert_eq!(incompativel.mensagem().as_str(), "Tamanho do CNPJ incompativel com os pesos");
    // A character that has no value is reported.
    let invalido = calcular_digito("x1", &pesos1).unwrap_err();
    assert_eq!(invalido.mensagem().as_str(), "Caractere invalido: x");
}

#[test]
fn apenas_zeros_exato() {
    assert!(apenas_zeros(""));
    assert!(apenas_zeros("0000"));
    assert!(!apenas_zeros("0A00"));
    assert!(!apenas_zeros("1"));
}
