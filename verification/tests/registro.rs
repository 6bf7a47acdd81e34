use registro_creadores::Contract;
use registro_creadores::Error;

#[test]
fn test_registro_creador() {
    let mut contract = Contract::nuevo();
    let wallet = String::from("wallet1");

    assert_eq!(
        contract.registrar_creador(
            String::from("Alice"),
            String::from("alice@example.com"),
            wallet.clone()
        ),
        Ok(())
    );

    assert_eq!(
        contract.registrar_creador(
            String::from("Alice2"),
            String::from("alice2@example.com"),
            wallet
        ),
        Err(Error::DuplicateCreator)
    );
}

#[test]
fn escenario_registro_duplicado() {
    let mut contract = Contract::nuevo();
    assert_eq!(
        contract.registrar_creador(
            String::from("Alice"),
            String::from("a@x.com"),
            String::from("W1")
        ),
        Ok(())
    );
    assert_eq!(
        contract.registrar_creador(
            String::from("Alice2"),
            String::from("a2@x.com"),
            String::from("W1")
        ),
        Err(Error::DuplicateCreator)
    );
}

#[test]
fn consultar_creador_devuelve_perfil() {
    let mut contract = Contract::nuevo();
    contract
        .registrar_creador(
            String::from("Alice"),
            String::from("a@x.com"),
            String::from("W1"),
        )
        .unwrap();
    let perfil = contract.consultar_creador(String::from("W1")).unwrap();
    assert_eq!(perfil.username, "Alice");
    assert_eq!(perfil.email, "a@x.com");
    assert_eq!(perfil.redes, None);
    assert!(contract.consultar_creador(String::from("W2")).is_none());
}

#[test]
fn actualizar_perfil_reemplaza_campos() {
    let mut contract = Contract::nuevo();
    assert_eq!(
        contract.actualizar_perfil(
            String::from("W1"),
            String::from("A"),
            String::from("a@x.com"),
            None
        ),
        Err(Error::CreatorNotFound)
    );
    contract
        .registrar_creador(
            String::from("Alice"),
            String::from("a@x.com"),
            String::from("W1"),
        )
        .unwrap();
    assert_eq!(
        contract.actualizar_perfil(
            String::from("W1"),
            String::from("Alicia"),
            String::from("nueva@x.com"),
            Some(String::from("@alicia"))
        ),
        Ok(())
    );
    let perfil = contract.consultar_creador(String::from("W1")).unwrap();
    assert_eq!(perfil.username, "Alicia");
    assert_eq!(perfil.email, "nueva@x.com");
    assert_eq!(perfil.redes, Some(String::from("@alicia")));
}

#[test]
fn eliminar_creador_exige_confirmacion_y_existencia() {
    let mut contract = Contract::nuevo();
    contract
        .registrar_creador(
            String::from("Alice"),
            String::from("a@x.com"),
            String::from("W1"),
        )
        .unwrap();
    // Confirmation is checked before existence.
    assert_eq!(
        contract.eliminar_creador(String::from("W9"), false),
        Err(Error::Unconfirmed)
    );
    assert_eq!(
        contract.eliminar_creador(String::from("W9"), true),
        Err(Error::CreatorNotFound)
    );
    assert_eq!(contract.eliminar_creador(String::from("W1"), true), Ok(()));
    assert!(contract.consultar_creador(String::from("W1")).is_none());
}

#[test]
fn eliminar_creador_conserva_contenido_e_historia() {
    let mut contract = Contract::nuevo();
    contract
        .registrar_creador(
            String::from("Alice"),
            String::from("a@x.com"),
            String::from("W1"),
        )
        .unwrap();
    contract
        .alta_contenido(
            String::from("W1"),
            String::from("T"),
            String::from("D"),
            String::from("https://example.com/12345"),
        )
        .unwrap();
    contract.eliminar_creador(String::from("W1"), true).unwrap();
    // Only the creator entry is deleted; the content stays addressable.
    let lista = contract.contenidos_de(String::from("W1"));
    assert_eq!(lista.len(), 1);
    assert_eq!(lista[0].titulo, "T");
    // And the wallet can no longer publish until it registers again.
    assert_eq!(
        contract.alta_contenido(
            String::from("W1"),
            String::from("T2"),
            String::from("D2"),
            String::from("https://example.com/12345")
        ),
        Err(Error::CreatorNotFound)
    );
}
