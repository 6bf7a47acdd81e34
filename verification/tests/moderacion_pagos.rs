use registro_creadores::Contenido;
use registro_creadores::Contract;
use registro_creadores::Error;
use registro_creadores::ResultadoValidacion;

fn contenido_con(descripcion: &str) -> Contenido {
    Contenido {
        titulo: String::from("Algo"),
        descripcion: String::from(descripcion),
        url_archivo: String::from("http://example.com"),
        autenticado: true,
    }
}

#[test]
fn test_revision_contenido() {
    let contenido_bueno = Contenido {
        titulo: String::from("Bueno"),
        descripcion: String::from("Contenido apropiado"),
        url_archivo: String::from("http://example.com"),
        autenticado: true,
    };

    let contenido_malo = Contenido {
        titulo: String::from("Malo"),
        descripcion: String::from("Contiene violencia"),
        url_archivo: String::from("http://example.com"),
        autenticado: true,
    };

    assert!(Contract::revisar_contenido(contenido_bueno));
    assert!(!Contract::revisar_contenido(contenido_malo));
}

#[test]
fn escenario_revision() {
    assert!(!Contract::revisar_contenido(contenido_con("Esto es odio")));
    assert!(Contract::revisar_contenido(contenido_con("Contenido normal")));
}

#[test]
fn revision_sin_limites_de_palabra() {
    // A banned term inside a longer word still rejects the description.
    assert!(!Contract::revisar_contenido(contenido_con("un texto odioso")));
    // Case folding applies to the description.
    assert!(!Contract::revisar_contenido(contenido_con("PURA VIOLENCIA")));
    assert!(!Contract::revisar_contenido(contenido_con("pornografía y más")));
    // Similar but different words pass.
    assert!(Contract::revisar_contenido(contenido_con("odia el lunes")));
}

#[test]
fn revision_pliega_mayusculas_acentuadas() {
    // The banned term itself carries an accented letter; a description in
    // capitals, accented capital included, is still caught.
    assert!(!Contract::revisar_contenido(contenido_con("PORNOGRAFÍA")));
    assert!(!Contract::revisar_contenido(contenido_con("pura PornografÍa")));
}

#[test]
fn escenario_compensacion() {
    let fallo = Contract::compensar_creador(
        String::from("consumer"),
        String::from("creator"),
        100,
        50,
    );
    assert!(matches!(fallo, Err(Error::InsufficientFunds)));

    let orden = Contract::compensar_creador(
        String::from("consumer"),
        String::from("creator"),
        100,
        200,
    )
    .unwrap();
    assert_eq!(orden.de, "consumer");
    assert_eq!(orden.hacia, "creator");
    assert_eq!(orden.cantidad, 100);
}

#[test]
fn compensacion_con_saldo_justo() {
    // The transfer is refused only when the balance is strictly below the
    // amount: an exactly covering balance succeeds.
    let orden = Contract::compensar_creador(String::from("c"), String::from("k"), 100, 100);
    assert!(orden.is_ok());
}

#[test]
fn pago_lleva_la_nota() {
    let fallo =
        Contract::realizar_pago_tokens(String::from("c"), String::from("k"), 10, 9);
    assert!(matches!(fallo, Err(Error::InsufficientFunds)));
    let pago = Contract::realizar_pago_tokens(String::from("c"), String::from("k"), 10, 30)
        .unwrap();
    assert_eq!(pago.transferencia.de, "c");
    assert_eq!(pago.transferencia.hacia, "k");
    assert_eq!(pago.transferencia.cantidad, 10);
    assert_eq!(pago.nota, "Pago por contenido consumido");
}

#[test]
fn validacion_de_autenticidad() {
    assert_eq!(
        Contract::validar_autenticidad_contenido(false, true),
        ResultadoValidacion::NoEncontrado
    );
    assert_eq!(
        Contract::validar_autenticidad_contenido(true, true),
        ResultadoValidacion::Aceptado
    );
    assert_eq!(
        Contract::validar_autenticidad_contenido(true, false),
        ResultadoValidacion::Rechazado
    );
}
