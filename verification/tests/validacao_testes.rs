use agenda::{validar_compromisso, validar_contato, validar_data, validar_hora, Erro};

#[test]
fn data_de_ano_bissexto() {
    assert!(validar_data("29/02/2024"));
    assert!(!validar_data("29/02/2023"));
}

#[test]
fn data_de_seculo_so_e_bissexta_de_400_em_400() {
    assert!(validar_data("29/02/2000"));
    assert!(!validar_data("29/02/1900"));
    assert!(validar_data("28/02/1900"));
    assert!(!validar_data("30/02/2024"));
}

#[test]
fn data_de_abril_tem_30_dias() {
    assert!(!validar_data("31/04/2025"));
    assert!(validar_data("30/04/2025"));
    assert!(validar_data("30/06/2025"));
    assert!(!validar_data("31/06/2025"));
    assert!(validar_data("30/09/2025"));
    assert!(!validar_data("31/09/2025"));
    assert!(validar_data("30/11/2025"));
    assert!(!validar_data("31/11/2025"));
}

#[test]
fn data_de_meses_longos_tem_31_dias() {
    for mes in [1, 3, 5, 7, 8, 10, 12] {
        assert!(validar_data(&format!("31/{}/2025", mes)));
        assert!(!validar_data(&format!("32/{}/2025", mes)));
    }
}

#[test]
fn data_com_zero_e_recusada() {
    assert!(!validar_data("00/01/2025"));
    assert!(!validar_data("01/00/2025"));
    assert!(!validar_data("01/01/0000"));
    assert!(!validar_data("0/0/0"));
}

#[test]
fn data_com_mes_acima_de_12_e_recusada() {
    assert!(!validar_data("15/13/2025"));
    assert!(validar_data("15/12/2025"));
}

#[test]
fn data_exige_tres_partes() {
    assert!(!validar_data(""));
    assert!(!validar_data("01"));
    assert!(!validar_data("01/01"));
    assert!(!validar_data("01/01/2000/"));
    assert!(!validar_data("/01/01/2000"));
    assert!(!validar_data("01/01/2000/01"));
    assert!(!validar_data("01-01-2000"));
    assert!(!validar_data("//"));
}

#[test]
fn data_exige_numeros() {
    assert!(!validar_data("aa/01/2000"));
    assert!(!validar_data("01/bb/2000"));
    assert!(!validar_data("01/01/cccc"));
    assert!(!validar_data("01/01/20x0"));
    assert!(!validar_data(" 1/01/2000"));
    assert!(!validar_data("1 /01/2000"));
    assert!(!validar_data("-1/01/2000"));
    assert!(!validar_data("01/01/"));
    assert!(!validar_data("+/01/2000"));
    assert!(!validar_data("++1/01/2000"));
    assert!(!validar_data("1_0/01/2000"));
    assert!(!validar_data("٣/01/2000"));
}

#[test]
fn data_aceita_numeros_sem_zeros_a_esquerda_e_com_sinal() {
    assert!(validar_data("1/1/2000"));
    assert!(validar_data("001/0001/02000"));
    assert!(validar_data("+1/+1/+2000"));
    assert!(validar_data("1/1/1"));
}

#[test]
fn data_com_numero_grande_demais_e_recusada() {
    assert!(validar_data("01/01/4294967295"));
    assert!(!validar_data("01/01/4294967296"));
    assert!(!validar_data("01/01/99999999999999999999999999"));
    assert!(!validar_data("4294967297/01/2000"));
    assert!(validar_data("01/01/00000000000000000004294967295"));
}

#[test]
fn hora_dentro_do_dia() {
    assert!(validar_hora("23:59"));
    assert!(!validar_hora("24:00"));
    assert!(!validar_hora("12:60"));
    assert!(validar_hora("00:00"));
    assert!(validar_hora("0:0"));
    assert!(validar_hora("14:00"));
    assert!(validar_hora("+7:+5"));
}

#[test]
fn hora_exige_duas_partes() {
    assert!(!validar_hora(""));
    assert!(!validar_hora("12"));
    assert!(!validar_hora("12:00:00"));
    assert!(!validar_hora("12:00:"));
    assert!(!validar_hora("12.00"));
}

#[test]
fn hora_conta_zero_para_o_que_nao_e_numero() {
    assert!(validar_hora(":"));
    assert!(validar_hora("a:b"));
    assert!(validar_hora("12:"));
    assert!(validar_hora(":30"));
    assert!(validar_hora("99999999999:00"));
    assert!(!validar_hora("24:x"));
    assert!(!validar_hora("x:60"));
}

#[test]
fn contato_e_validado_na_ordem_nome_telefone_data() {
    assert_eq!(validar_contato("Ana", "555", "01/01/2000"), Ok(()));
    assert_eq!(validar_contato("", "", "x"), Err(Erro::NomeVazio));
    assert_eq!(validar_contato("Ana", "", "x"), Err(Erro::TelefoneVazio));
    assert_eq!(
        validar_contato("Ana", "555", "x"),
        Err(Erro::DataAniversarioInvalida)
    );
}

#[test]
fn compromisso_e_validado_na_ordem_titulo_data_hora() {
    assert_eq!(validar_compromisso("Aula", "01/01/2025", "08:30"), Ok(()));
    assert_eq!(validar_compromisso("", "x", "25:00"), Err(Erro::TituloVazio));
    assert_eq!(
        validar_compromisso("Aula", "x", "25:00"),
        Err(Erro::DataInvalida)
    );
    assert_eq!(
        validar_compromisso("Aula", "01/01/2025", "25:00"),
        Err(Erro::HoraInvalida)
    );
}

#[test]
fn mensagens_dos_erros() {
    assert_eq!(Erro::NomeVazio.mensagem(), "Nome não pode estar vazio");
    assert_eq!(Erro::TelefoneVazio.mensagem(), "Telefone não pode estar vazio");
    assert_eq!(Erro::TituloVazio.mensagem(), "Título não pode estar vazio");
    assert_eq!(
        Erro::DataAniversarioInvalida.mensagem(),
        "Data de aniversário inválida. O formato deve ser dd/mm/aaaa."
    );
    assert_eq!(
        Erro::DataInvalida.mensagem(),
        "Data inválida. O formato deve ser dd/mm/aaaa."
    );
    assert_eq!(
        Erro::HoraInvalida.mensagem(),
        "Hora inválida. O formato deve ser hh:mm."
    );
    assert_eq!(Erro::ContatoNaoEncontrado.mensagem(), "Contato não encontrado");
    assert_eq!(
        Erro::CompromissoNaoEncontrado.mensagem(),
        "Compromisso não encontrado"
    );
}
