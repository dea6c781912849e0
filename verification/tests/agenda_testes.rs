use agenda::{Agenda, Categoria, Prioridade};

#[test]
fn test_criar_contato() {
    let mut agenda = Agenda::new();

    let nome = "John Doe".to_string();
    let telefone = "123456789".to_string();
    let idade = 30;
    let data_aniversario = "01/01/1990".to_string();
    let categoria = Categoria::Amigo;

    let result = agenda.criar_contato(
        nome.clone(),
        telefone.clone(),
        idade,
        data_aniversario.clone(),
        categoria.clone(),
    );
    assert!(result.is_ok(), "Falha ao criar contato");

    let id = result.unwrap();
    let contato = agenda.ler_contato(id).expect("O contato deve existir");

    assert_eq!(contato.nome, nome);
    assert_eq!(contato.telefone, telefone);
    assert_eq!(contato.idade, idade);
    assert_eq!(contato.data_aniversario, data_aniversario);
    assert_eq!(contato.categoria, categoria);
}

#[test]
fn test_criar_contato_data_invalida() {
    let mut agenda = Agenda::new();

    let nome = "John Doe".to_string();
    let telefone = "123456789".to_string();
    let idade = 30;
    let data_aniversario = "32/13/1990".to_string();
    let categoria = Categoria::Amigo;

    let result = agenda.criar_contato(nome, telefone, idade, data_aniversario, categoria);
    assert!(
        result.is_err(),
        "Contato não deve ser criado com data inválida"
    );
}

#[test]
fn test_atualizar_contato() {
    let mut agenda = Agenda::new();

    let nome = "John Doe".to_string();
    let telefone = "123456789".to_string();
    let idade = 30;
    let data_aniversario = "01/01/1990".to_string();
    let categoria = Categoria::Amigo;

    let id = agenda
        .criar_contato(
            nome.clone(),
            telefone.clone(),
            idade,
            data_aniversario.clone(),
            categoria,
        )
        .unwrap();

    let new_nome = "Jane Doe".to_string();
    let new_telefone = "987654321".to_string();
    let new_idade = 31;
    let new_data_aniversario = "02/02/1990".to_string();
    let new_categoria = Categoria::Familiar;

    let update_result = agenda.atualizar_contato(
        id,
        new_nome.clone(),
        new_telefone.clone(),
        new_idade,
        new_data_aniversario.clone(),
        new_categoria.clone(),
    );
    assert!(update_result.is_ok(), "Falha ao atualizar contato");

    let updated_contato = agenda.ler_contato(id).expect("O contato deve existir");
    assert_eq!(updated_contato.nome, new_nome);
    assert_eq!(updated_contato.telefone, new_telefone);
    assert_eq!(updated_contato.idade, new_idade);
    assert_eq!(updated_contato.data_aniversario, new_data_aniversario);
    assert_eq!(updated_contato.categoria, new_categoria);
}

#[test]
fn test_atualizar_contato_data_invalida() {
    let mut agenda = Agenda::new();

    let nome = "John Doe".to_string();
    let telefone = "123456789".to_string();
    let idade = 30;
    let data_aniversario = "01/01/1990".to_string();
    let categoria = Categoria::Amigo;

    let id = agenda
        .criar_contato(nome, telefone, idade, data_aniversario, categoria)
        .unwrap();

    let new_data_aniversario = "32/13/1990".to_string();
    let update_result = agenda.atualizar_contato(
        id,
        "Jane Doe".to_string(),
        "987654321".to_string(),
        31,
        new_data_aniversario,
        Categoria::Familiar,
    );

    assert!(
        update_result.is_err(),
        "Contato não deve ser atualizado com data inválida"
    );
}

#[test]
fn test_criar_compromisso() {
    let mut agenda = Agenda::new();

    let titulo = "Reunião".to_string();
    let data = "01/01/2025".to_string();
    let hora = "14:00".to_string();
    let prioridade = Prioridade::Alta;
    let duracao = 60;

    let result = agenda.criar_compromisso(
        titulo.clone(),
        data.clone(),
        hora.clone(),
        prioridade.clone(),
        duracao,
    );
    assert!(result.is_ok(), "Falha ao criar compromisso");

    let id = result.unwrap();
    let compromisso = agenda
        .ler_compromisso(id)
        .expect("O compromisso deve existir");

    assert_eq!(compromisso.titulo, titulo);
    assert_eq!(compromisso.data, data);
    assert_eq!(compromisso.hora, hora);
    assert_eq!(compromisso.prioridade, prioridade);
    assert_eq!(compromisso.duracao, duracao);
}

#[test]
fn test_criar_compromisso_data_invalida() {
    let mut agenda = Agenda::new();

    let titulo = "Reunião".to_string();
    let data = "32/13/2025".to_string();
    let hora = "14:00".to_string();
    let prioridade = Prioridade::Alta;
    let duracao = 60;

    let result = agenda.criar_compromisso(titulo, data, hora, prioridade, duracao);
    assert!(
        result.is_err(),
        "Compromisso não deve ser criado com data inválida"
    );
}

#[test]
fn test_atualizar_compromisso() {
    let mut agenda = Agenda::new();

    let titulo = "Reunião".to_string();
    let data = "01/01/2025".to_string();
    let hora = "14:00".to_string();
    let prioridade = Prioridade::Alta;
    let duracao = 60;

    let id = agenda
        .criar_compromisso(
            titulo.clone(),
            data.clone(),
            hora.clone(),
            prioridade,
            duracao,
        )
        .unwrap();

    let new_titulo = "Conferência".to_string();
    let new_data = "02/01/2025".to_string();
    let new_hora = "10:00".to_string();
    let new_prioridade = Prioridade::Media;
    let new_duracao = 90;

    let update_result = agenda.atualizar_compromisso(
        id,
        new_titulo.clone(),
        new_data.clone(),
        new_hora.clone(),
        new_prioridade.clone(),
        new_duracao,
    );
    assert!(update_result.is_ok(), "Falha ao atualizar compromisso");

    let updated_compromisso = agenda
        .ler_compromisso(id)
        .expect("O compromisso deve existir");
    assert_eq!(updated_compromisso.titulo, new_titulo);
    assert_eq!(updated_compromisso.data, new_data);
    assert_eq!(updated_compromisso.hora, new_hora);
    assert_eq!(updated_compromisso.prioridade, new_prioridade);
    assert_eq!(updated_compromisso.duracao, new_duracao);
}

#[test]
fn test_deletar_contato() {
    let mut agenda = Agenda::new();

    let nome = "John Doe".to_string();
    let telefone = "123456789".to_string();
    let idade = 30;
    let data_aniversario = "01/01/1990".to_string();
    let categoria = Categoria::Amigo;

    let id = agenda
        .criar_contato(nome, telefone, idade, data_aniversario, categoria)
        .unwrap();

    let delete_result = agenda.deletar_contato(id);
    assert!(delete_result, "O contato deve ser deletado");

    let deleted_contato = agenda.ler_contato(id);
    assert!(
        deleted_contato.is_none(),
        "O contato não deve existir após a exclusão"
    );
}

#[test]
fn test_deletar_compromisso() {
    let mut agenda = Agenda::new();

    let titulo = "Reunião".to_string();
    let data = "01/01/2025".to_string();
    let hora = "14:00".to_string();
    let prioridade = Prioridade::Alta;
    let duracao = 60;

    let id = agenda
        .criar_compromisso(titulo, data, hora, prioridade, duracao)
        .unwrap();

    let delete_result = agenda.deletar_compromisso(id);
    assert!(delete_result, "O compromisso deve ser deletado");

    let deleted_compromisso = agenda.ler_compromisso(id);
    assert!(
        deleted_compromisso.is_none(),
        "O compromisso não deve existir após a exclusão"
    );
}

#[test]
fn test_meses_com_30_dias_invalidos() {
    let mut agenda = Agenda::new();
    let datas_invalidas_30 = vec!["04/31/1990", "06/31/1995", "09/31/2000", "11/31/2020"];
    for data in datas_invalidas_30 {
        let result = agenda.criar_contato(
            "Teste".to_string(),
            "123456789".to_string(),
            30,
            data.to_string(),
            Categoria::Colega,
        );
        assert!(
            result.is_err(),
            "Contato criado com data inválida: {}",
            data
        );
    }
}

#[test]
fn test_datas_gerais_invalidas() {
    let mut agenda = Agenda::new();
    let data_invalida = "13/32/2023";
    let result = agenda.criar_contato(
        "Teste".to_string(),
        "123456789".to_string(),
        30,
        data_invalida.to_string(),
        Categoria::Amigo,
    );
    assert!(
        result.is_err(),
        "Contato criado com data inválida: {}",
        data_invalida
    );
}
