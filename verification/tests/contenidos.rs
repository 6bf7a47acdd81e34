use registro_creadores::Contract;
use registro_creadores::Error;

fn con_creador(wallet: &str) -> Contract {
    let mut contract = Contract::nuevo();
    contract
        .registrar_creador(
            String::from("Bob"),
            String::from("bob@example.com"),
            String::from(wallet),
        )
        .unwrap();
    contract
}

#[test]
fn test_alta_contenido() {
    let mut contract = Contract::nuevo();
    let wallet = String::from("wallet2");

    contract
        .registrar_creador(
            String::from("Bob"),
            String::from("bob@example.com"),
            wallet.clone(),
        )
        .unwrap();

    assert_eq!(
        contract.alta_contenido(
            wallet.clone(),
            String::from("Título"),
            String::from("Descripción"),
            String::from("https://example.com/1234567890")
        ),
        Ok(())
    );

    assert_eq!(
        contract.alta_contenido(
            wallet,
            String::from("Título"),
            String::from("Descripción"),
            String::from("short")
        ),
        Err(Error::InvalidUrl)
    );
}

#[test]
fn escenario_alta_autenticada() {
    let mut contract = con_creador("W1");
    // 25 characters: longer than the threshold, so authenticated.
    assert_eq!(
        contract.alta_contenido(
            String::from("W1"),
            String::from("T"),
            String::from("D"),
            String::from("https://example.com/12345")
        ),
        Ok(())
    );
    let lista = contract.contenidos_de(String::from("W1"));
    assert_eq!(lista.len(), 1);
    assert!(lista[0].autenticado);
    assert_eq!(
        contract.alta_contenido(
            String::from("W1"),
            String::from("T2"),
            String::from("D2"),
            String::from("short")
        ),
        Err(Error::InvalidUrl)
    );
    assert_eq!(contract.contenidos_de(String::from("W1")).len(), 1);
}

#[test]
fn alta_en_el_borde_del_largo() {
    let mut contract = con_creador("W1");
    // Exactly 10 characters is still refused; 11 passes.
    assert_eq!(
        contract.alta_contenido(
            String::from("W1"),
            String::from("T"),
            String::from("D"),
            String::from("abcdefghij")
        ),
        Err(Error::InvalidUrl)
    );
    assert_eq!(
        contract.alta_contenido(
            String::from("W1"),
            String::from("T"),
            String::from("D"),
            String::from("abcdefghijk")
        ),
        Ok(())
    );
    let lista = contract.contenidos_de(String::from("W1"));
    assert_eq!(lista.len(), 1);
    assert!(lista[0].autenticado);
}

#[test]
fn alta_sin_creador_falla() {
    let mut contract = Contract::nuevo();
    assert_eq!(
        contract.alta_contenido(
            String::from("W9"),
            String::from("T"),
            String::from("D"),
            String::from("https://example.com/12345")
        ),
        Err(Error::CreatorNotFound)
    );
}

#[test]
fn escenario_baja_contenido() {
    let mut contract = con_creador("W1");
    contract
        .alta_contenido(
            String::from("W1"),
            String::from("T"),
            String::from("D"),
            String::from("https://example.com/12345"),
        )
        .unwrap();
    assert_eq!(
        contract.baja_contenido(String::from("W1"), String::from("T"), false, 7),
        Err(Error::Unconfirmed)
    );
    assert_eq!(
        contract.baja_contenido(String::from("W1"), String::from("T"), true, 7),
        Ok(())
    );
    let historia = contract.historial_de(String::from("W1"));
    assert_eq!(historia.len(), 1);
    assert_eq!(historia[0].titulo, "T");
    assert_eq!(historia[0].descripcion, "D");
    assert_eq!(historia[0].timestamp, 7);
    assert_eq!(contract.contenidos_de(String::from("W1")).len(), 0);
}

#[test]
fn baja_sin_titulo_falla() {
    let mut contract = con_creador("W1");
    assert_eq!(
        contract.baja_contenido(String::from("W1"), String::from("T"), true, 1),
        Err(Error::ContentNotFound)
    );
}

#[test]
fn baja_quita_la_primera_coincidencia() {
    let mut contract = con_creador("W1");
    contract
        .alta_contenido(
            String::from("W1"),
            String::from("T"),
            String::from("primera"),
            String::from("https://example.com/11111"),
        )
        .unwrap();
    contract
        .alta_contenido(
            String::from("W1"),
            String::from("T"),
            String::from("segunda"),
            String::from("https://example.com/22222"),
        )
        .unwrap();
    contract
        .baja_contenido(String::from("W1"), String::from("T"), true, 3)
        .unwrap();
    let lista = contract.contenidos_de(String::from("W1"));
    assert_eq!(lista.len(), 1);
    assert_eq!(lista[0].descripcion, "segunda");
    let historia = contract.historial_de(String::from("W1"));
    assert_eq!(historia.len(), 1);
    assert_eq!(historia[0].descripcion, "primera");
}

#[test]
fn modificar_reemplaza_en_su_lugar() {
    let mut contract = con_creador("W1");
    contract
        .alta_contenido(
            String::from("W1"),
            String::from("A"),
            String::from("da"),
            String::from("https://example.com/aaaaa"),
        )
        .unwrap();
    contract
        .alta_contenido(
            String::from("W1"),
            String::from("B"),
            String::from("db"),
            String::from("https://example.com/bbbbb"),
        )
        .unwrap();
    assert_eq!(
        contract.modificar_contenido(
            String::from("W1"),
            String::from("A"),
            String::from("A2"),
            String::from("da2"),
            String::from("https://example.com/ccccc"),
            9
        ),
        Ok(())
    );
    let lista = contract.contenidos_de(String::from("W1"));
    assert_eq!(lista.len(), 2);
    assert_eq!(lista[0].titulo, "A2");
    assert_eq!(lista[0].descripcion, "da2");
    assert_eq!(lista[0].url_archivo, "https://example.com/ccccc");
    assert!(lista[0].autenticado);
    assert_eq!(lista[1].titulo, "B");
    let versiones = contract.versiones_de(String::from("W1"));
    assert_eq!(versiones.len(), 1);
    assert_eq!(versiones[0].titulo, "A");
    assert_eq!(versiones[0].descripcion, "da");
    assert_eq!(versiones[0].url_archivo, "https://example.com/aaaaa");
    assert_eq!(versiones[0].timestamp, 9);
}

#[test]
fn modificar_conserva_version_aunque_la_url_falle() {
    let mut contract = con_creador("W1");
    contract
        .alta_contenido(
            String::from("W1"),
            String::from("A"),
            String::from("da"),
            String::from("https://example.com/aaaaa"),
        )
        .unwrap();
    // The version snapshot is recorded before the URL is validated, so it
    // persists even though the call fails.
    assert_eq!(
        contract.modificar_contenido(
            String::from("W1"),
            String::from("A"),
            String::from("A2"),
            String::from("da2"),
            String::from("corta"),
            5
        ),
        Err(Error::InvalidUrl)
    );
    let versiones = contract.versiones_de(String::from("W1"));
    assert_eq!(versiones.len(), 1);
    assert_eq!(versiones[0].titulo, "A");
    // The item itself is unchanged.
    let lista = contract.contenidos_de(String::from("W1"));
    assert_eq!(lista[0].titulo, "A");
    assert_eq!(lista[0].descripcion, "da");
}

#[test]
fn modificar_sin_titulo_falla_sin_version() {
    let mut contract = con_creador("W1");
    assert_eq!(
        contract.modificar_contenido(
            String::from("W1"),
            String::from("A"),
            String::from("A2"),
            String::from("da2"),
            String::from("https://example.com/ccccc"),
            5
        ),
        Err(Error::ContentNotFound)
    );
    assert_eq!(contract.versiones_de(String::from("W1")).len(), 0);
}

#[test]
fn escenario_busqueda() {
    let mut contract = con_creador("W1");
    contract
        .alta_contenido(
            String::from("W1"),
            String::from("Pelicula"),
            String::from("Contiene violencia"),
            String::from("https://example.com/12345"),
        )
        .unwrap();
    let halladas = contract.consultar_contenido(String::from("viol"));
    assert_eq!(halladas.len(), 1);
    assert_eq!(halladas[0].titulo, "Pelicula");
    assert!(contract.consultar_contenido(String::from("zzz")).is_empty());
}

#[test]
fn busqueda_ignora_mayusculas_y_recorre_todo() {
    let mut contract = Contract::nuevo();
    contract
        .registrar_creador(String::from("A"), String::from("a@x.com"), String::from("W1"))
        .unwrap();
    contract
        .registrar_creador(String::from("B"), String::from("b@x.com"), String::from("W2"))
        .unwrap();
    contract
        .alta_contenido(
            String::from("W1"),
            String::from("Drama Total"),
            String::from("nada"),
            String::from("https://example.com/11111"),
        )
        .unwrap();
    contract
        .alta_contenido(
            String::from("W2"),
            String::from("otra"),
            String::from("un drama menor"),
            String::from("https://example.com/22222"),
        )
        .unwrap();
    // The query is folded, and titles and descriptions are folded too.
    let halladas = contract.consultar_contenido(String::from("DRAMA"));
    assert_eq!(halladas.len(), 2);
    assert_eq!(halladas[0].titulo, "Drama Total");
    assert_eq!(halladas[1].titulo, "otra");
    // The empty query matches every item.
    assert_eq!(contract.consultar_contenido(String::new()).len(), 2);
}

#[test]
fn busqueda_pliega_letras_acentuadas() {
    let mut contract = con_creador("W1");
    contract
        .alta_contenido(
            String::from("W1"),
            String::from("MÚSICA"),
            String::from("nada"),
            String::from("https://example.com/33333"),
        )
        .unwrap();
    // Query and title differ only in the case of an accented letter.
    let halladas = contract.consultar_contenido(String::from("música"));
    assert_eq!(halladas.len(), 1);
    assert_eq!(halladas[0].titulo, "MÚSICA");
    assert_eq!(contract.consultar_contenido(String::from("Ñoño")).len(), 0);
}
