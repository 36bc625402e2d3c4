use charge_notifier::asaas::{asaas_request, asaas_status, AsaasRequest, AsaasStatus};
use charge_notifier::config::{get_keys, ApiKeyConfig};
use charge_notifier::http::{error_status, success_status};
use charge_notifier::json::{message_json, parse_sheet, rows_json, update_json};
use charge_notifier::whatsapp::WhatsappClient;
use charge_notifier::omie::{omie_request, OmieRequest};
use charge_notifier::sheets::{
    append_body, clear_outcome, read_outcome, read_sheet, sheet_url_string, update_body,
    write_outcome, SheetError,
};
use charge_notifier::whatsapp::{message_accepted, refusal_message, send_message_body, whatsapp_url};

fn rows(x: &[&[&str]]) -> Vec<Vec<String>> {
    x.iter().map(|r| r.iter().map(|c| c.to_string()).collect()).collect()
}

#[test]
fn omie_requests() {
    let r = omie_request(&OmieRequest::OverdueCharges);
    assert_eq!(r.url, "https://apitdnomieasaas.squareweb.app/omie/bills");
    assert_eq!(r.query, vec![("status".to_string(), "ATRASADO".to_string())]);
    let r = omie_request(&OmieRequest::Client(4242));
    assert_eq!(r.url, "https://apitdnomieasaas.squareweb.app/omie/client/4242");
    assert!(r.query.is_empty());
    let r = omie_request(&OmieRequest::Boleto(-7));
    assert_eq!(r.url, "https://apitdnomieasaas.squareweb.app/omie/boleto");
    assert_eq!(r.query, vec![("nCodTitulo".to_string(), "-7".to_string())]);
    let r = omie_request(&OmieRequest::Client(i64::MIN));
    assert_eq!(r.url, format!("https://apitdnomieasaas.squareweb.app/omie/client/{}", i64::MIN));
}

#[test]
fn asaas_requests() {
    let r = asaas_request(&AsaasRequest::CustomerByContract("12/2024/A".to_string()));
    assert_eq!(r.url, "https://apitdnomieasaas.squareweb.app/asaas/customers/cNumCtr/12%2f2024%2fA");
    let r = asaas_request(&AsaasRequest::ChargesOfCustomer("cus_1".to_string()));
    assert_eq!(r.url, "https://apitdnomieasaas.squareweb.app/asaas/charges/cus_1");
    assert!(r.query.is_empty());
}

#[test]
fn asaas_statuses() {
    assert_eq!(asaas_status(404), AsaasStatus::NotFound);
    assert_eq!(asaas_status(401), AsaasStatus::Failed);
    assert_eq!(asaas_status(503), AsaasStatus::Failed);
    assert_eq!(asaas_status(200), AsaasStatus::Found);
    assert_eq!(asaas_status(302), AsaasStatus::Found);
}

#[test]
fn http_status_classes() {
    assert!(error_status(400) && error_status(599));
    assert!(!error_status(399) && !error_status(600));
    assert!(success_status(200) && success_status(299));
    assert!(!success_status(199) && !success_status(300));
}

#[test]
fn whatsapp_credentials() {
    let k = get_keys("k".into(), "i".into(), "t".into());
    assert_eq!((k.api_key, k.instance_id, k.token_instance), ("k".to_string(), "i".to_string(), "t".to_string()));
}

#[test]
fn whatsapp_url_and_body() {
    let keys = ApiKeyConfig { api_key: "k".into(), instance_id: "INST".into(), token_instance: "TOK".into() };
    assert_eq!(whatsapp_url(&keys), "https://api.z-api.io/instances/INST/token/TOK/send-text");
    assert_eq!(
        send_message_body("5511999", "Olá \"Ana\"!\nPague."),
        "{\"message\":\"Olá \\\"Ana\\\"!\\nPague.\",\"phone\":\"5511999\"}"
    );
    assert!(message_accepted(200));
    assert!(!message_accepted(400));
    assert_eq!(
        refusal_message("400 Bad Request", "{}"),
        "Erro ao enviar mensagem. Status: 400 Bad Request. Resposta: {}"
    );
}

#[test]
fn sheet_bodies() {
    assert_eq!(sheet_url_string(), "https://logssheetapi.squareweb.app/lateCharges");
    let r = rows(&[&["a", "b\"c"], &[], &["d"]]);
    assert_eq!(append_body(&r), "[[\"a\",\"b\\\"c\"],[],[\"d\"]]");
    assert_eq!(append_body(&r), serde_json::to_string(&r).unwrap());
    assert_eq!(append_body(&Vec::new()), "[]");
    assert_eq!(
        update_body(&rows(&[&["x"]]), "A1:H2"),
        "{\"data\":[[\"x\"]],\"range\":\"A1:H2\"}"
    );
    assert_eq!(rows_json(&rows(&[&["tab\t"]])), "[[\"tab\\t\"]]");
}

#[test]
fn sheet_outcomes() {
    assert_eq!(write_outcome(200), Ok(()));
    assert_eq!(write_outcome(302), Err(SheetError::UpdateFailed));
    assert_eq!(write_outcome(404), Err(SheetError::UpdateFailed));
    assert_eq!(read_outcome(200), Ok(()));
    assert_eq!(read_outcome(404), Err(SheetError::Status(404)));
    assert_eq!(read_outcome(302), Err(SheetError::ReadFailed));
    assert_eq!(clear_outcome(204), Ok(()));
    assert_eq!(clear_outcome(500), Err(SheetError::Status(500)));
    assert_eq!(clear_outcome(101), Err(SheetError::ClearFailed));
}

#[test]
fn sheet_parsing() {
    assert_eq!(read_sheet("[[\"a\",\"b\"],[]]").unwrap(), rows(&[&["a", "b"], &[]]));
    assert!(read_sheet("{}").is_err());
    assert!(read_sheet("[[1]]").is_err());
    assert!(parse_sheet("not json").is_err());
    assert_eq!(parse_sheet("[]").unwrap(), Vec::<Vec<String>>::new());
}

#[test]
fn json_bodies_keep_keys_in_alphabetical_order() {
    assert_eq!(update_json(&rows(&[]), "A1:H1"), "{\"data\":[],\"range\":\"A1:H1\"}");
    assert_eq!(message_json("p", "m"), "{\"message\":\"m\",\"phone\":\"p\"}");
    assert_eq!(rows_json(&rows(&[&["é"]])), "[[\"é\"]]");
}

#[test]
fn whatsapp_client_from_credentials() {
    let c = WhatsappClient::new(get_keys("key".into(), "I1".into(), "T1".into()));
    assert_eq!(c.api_key, "key");
    assert_eq!(c.base_url, "https://api.z-api.io/instances/I1/token/T1/send-text");
}

#[test]
fn json_escapes_control_characters() {
    assert_eq!(rows_json(&rows(&[&["\u{8}\u{c}\r\t\n"]])), "[[\"\\b\\f\\r\\t\\n\"]]");
    assert_eq!(rows_json(&rows(&[&["\u{1}\u{1f}"]])), "[[\"\\u0001\\u001f\"]]");
    assert_eq!(rows_json(&rows(&[&["\u{7f}/é\\"]])), "[[\"\u{7f}/é\\\\\"]]");
    assert_eq!(rows_json(&rows(&[&[""]])), "[[\"\"]]");
}
