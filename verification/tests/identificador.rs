use cnpj_alfanumerico::calcula_dv;
use cnpj_alfanumerico::is_valid;
use cnpj_alfanumerico::remover_mascara_cnpj;

#[test]
fn test_is_valid() {
    assert!(is_valid("12ABC34501DE35"));
    assert!(is_valid("12.ABC.345/01DE-35"));
    assert!(!is_valid("12ABC34501DE99"));
    assert!(!is_valid("00000000000000"));
    assert!(!is_valid("ABCDEFGHIJ0000"));
    assert!(!is_valid("@#$%^&*()_+"));
}

#[test]
fn test_calcula_dv() {
    assert_eq!(calcula_dv("12ABC34501DE").unwrap(), "35");
    assert_eq!(calcula_dv("12.ABC.345/01DE").unwrap(), "35");
    assert!(calcula_dv("000000000000").is_err());
    assert!(calcula_dv("@#$%^&*()_+").is_err());
}

#[test]
fn test_remover_mascara_cnpj() {
    assert_eq!(remover_mascara_cnpj("12.ABC.345/01DE-35"), "12ABC34501DE35");
    assert_eq!(remover_mascara_cnpj("12ABC34501DE35"), "12ABC34501DE35");
}
