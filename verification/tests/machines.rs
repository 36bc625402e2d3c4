use charge_notifier::asaas;
use charge_notifier::charge_processor::ChargeBatcher;
use charge_notifier::dates::get_yesterday_date_in_sao_paulo;
use charge_notifier::omie;
use charge_notifier::sheet_updater::{batch_update, ReminderRun};
use charge_notifier::single_charge::{ChargeCall, ChargeNext, ChargeReply, SingleChargeRun, ASAAS_ACCOUNT};

fn row(x: &[&str]) -> Vec<String> {
    x.iter().map(|c| c.to_string()).collect()
}

fn sheet_row(name: &str, phone: &str, date: &str) -> Vec<String> {
    row(&[name, "C-1", phone, date, "10.5", "123", "http://pay"])
}

#[test]
fn batch_update_ranges() {
    let batch = vec![row(&["a"]), row(&["b"]), row(&["c"])];
    let u = batch_update(&batch, 3, 5);
    assert_eq!(u.range, "A3:H5");
    assert_eq!(u.rows, batch);
    let u = batch_update(&batch, 2, 5);
    assert_eq!(u.range, "A4:H5");
    assert_eq!(u.rows, vec![row(&["b"]), row(&["c"])]);
    let u = batch_update(&batch, 4, 2);
    assert_eq!(u.range, "A1:H2");
    assert_eq!(u.rows, batch);
}

#[test]
fn reminders_for_due_rows_only() {
    let date = "04/03/2024".to_string();
    let rows = vec![
        sheet_row("Ana", "5511", "04/03/2024"),
        sheet_row("Bia", "5522", "05/03/2024"),
        sheet_row("Ana again", "5511", "04/03/2024"),
        {
            let mut r = sheet_row("Caio", "5533", "04/03/2024");
            r.push("Primeira mensagem".to_string());
            r
        },
        sheet_row("Duda", "5544", "04/03/2024"),
    ];
    let mut run = ReminderRun::new(Some(date), false, rows.len()).unwrap();
    let mut reminders = Vec::new();
    let mut updates = Vec::new();
    for (i, r) in rows.into_iter().enumerate() {
        let reminder = run.reminder_for(&r);
        let delivered = i != 4;
        if let Some(m) = &reminder {
            reminders.push((m.phone.clone(), m.text.clone()));
        }
        if let Some(u) = run.finish_row(r, delivered) {
            updates.push(u);
        }
    }
    assert!(run.is_finished());
    assert_eq!(
        reminders,
        vec![
            (
                "5511".to_string(),
                "Olá Ana!,\nA sua cobrança venceu!\nRealize o pagamento para evitar a suspensão do serviço."
                    .to_string()
            ),
            (
                "5544".to_string(),
                "Olá Duda!,\nA sua cobrança venceu!\nRealize o pagamento para evitar a suspensão do serviço."
                    .to_string()
            ),
        ]
    );
    assert_eq!(updates.len(), 1);
    assert_eq!(updates[0].range, "A1:H5");
    let written = &updates[0].rows;
    assert_eq!(written[0].last().unwrap(), "Primeira mensagem");
    assert_eq!(written[1].len(), 7);
    assert_eq!(written[2].len(), 7);
    assert_eq!(written[3].len(), 8);
    assert_eq!(written[4].last().unwrap(), "Não enviado");
}

#[test]
fn reminder_text_announcing_suspension() {
    let run = ReminderRun::new(Some("01/01/2025".to_string()), true, 1).unwrap();
    let m = run.reminder_for(&sheet_row("Eva", "5599", "01/01/2025")).unwrap();
    assert_eq!(m.text, "Olá Eva!,\nAmanhã o seu serviço será suspenso!\nRealize o pagamento e evite a suspensão.");
}

#[test]
fn reminder_rows_written_in_batches_of_ten() {
    let n = 12;
    let mut run = ReminderRun::new(Some("x".to_string()), false, n).unwrap();
    let mut ranges = Vec::new();
    let mut count = 0;
    for i in 0..n {
        let r = sheet_row(&format!("n{}", i), &format!("p{}", i), "y");
        assert!(run.reminder_for(&r).is_none());
        if let Some(u) = run.finish_row(r, false) {
            count += u.rows.len();
            ranges.push(u.range);
        }
    }
    assert_eq!(ranges, vec!["A1:H10".to_string(), "A11:H12".to_string()]);
    assert_eq!(count, 12);
}

#[test]
fn reminder_run_without_date_uses_yesterday() {
    let run = ReminderRun::new(None, false, 0).unwrap();
    assert!(run.is_finished());
    assert_eq!(run.date().len(), get_yesterday_date_in_sao_paulo().unwrap().len());
}

#[test]
fn reminder_run_at_an_instant() {
    // 2024-03-05T02:00:00Z is 2024-03-04T23:00 in São Paulo.
    let run = ReminderRun::new_at(None, 1_709_604_000, false, 1);
    assert_eq!(run.date(), "03/03/2024");
    let run = ReminderRun::new_at(Some("x".to_string()), 1_709_604_000, false, 1);
    assert_eq!(run.date(), "x");
}

#[test]
fn charge_batches_of_ten_and_the_last() {
    let mut b = ChargeBatcher::new(12);
    let mut sizes = Vec::new();
    for i in 0..12 {
        if let Some(batch) = b.record(Some(row(&[&i.to_string()]))) {
            sizes.push(batch.len());
            assert_eq!(batch.last().unwrap()[0], i.to_string());
        }
    }
    assert!(b.is_finished());
    assert_eq!(sizes, vec![10, 2]);
}

#[test]
fn charge_failures_count_towards_the_batch() {
    let mut b = ChargeBatcher::new(13);
    let mut batches = Vec::new();
    for i in 0..13 {
        let outcome = if i == 3 || i == 9 { None } else { Some(row(&[&i.to_string()])) };
        if let Some(batch) = b.record(outcome) {
            batches.push(batch.iter().map(|r| r[0].clone()).collect::<Vec<_>>());
        }
    }
    // The tenth charge failed, so the batch goes out with the eleventh.
    assert_eq!(batches[0], vec!["0", "1", "2", "4", "5", "6", "7", "8", "10"]);
    assert_eq!(batches[1], vec!["11", "12"]);
}

#[test]
fn charge_rows_lost_when_the_last_fails() {
    let mut b = ChargeBatcher::new(3);
    assert!(b.record(Some(row(&["a"]))).is_none());
    assert!(b.record(Some(row(&["b"]))).is_none());
    assert!(b.record(None).is_none());
    assert!(b.is_finished());
}

fn charge(account: i64) -> omie::OverdueCharges {
    omie::OverdueCharges {
        codigo_cliente_fornecedor: 77,
        codigo_lancamento_omie: 88,
        id_conta_corrente: account,
        data_vencimento: "04/03/2024".to_string(),
        valor_documento: "150.5".to_string(),
        cNumeroContrato: "12/2024".to_string(),
    }
}

fn client() -> omie::Client {
    omie::Client {
        cnpj_cpf: "123.456".to_string(),
        nome_fantasia: "Loja".to_string(),
        telefone1_ddd: "(11)".to_string(),
        telefone1_numero: "9876-5432".to_string(),
    }
}

fn expected_row(link: &str) -> Vec<String> {
    row(&["Loja", "12/2024", "1198765432", "04/03/2024", "150.5", "123.456", link])
}

fn must_call(next: ChargeNext) -> ChargeCall {
    match next {
        ChargeNext::Call(c) => c,
        ChargeNext::Row(_) => panic!("expected a call"),
    }
}

fn must_row(next: ChargeNext) -> Vec<String> {
    match next {
        ChargeNext::Row(r) => r,
        ChargeNext::Call(_) => panic!("expected a row"),
    }
}

#[test]
fn omie_charge_with_slip() {
    let (mut run, first) = SingleChargeRun::start(charge(1));
    assert!(matches!(first, ChargeCall::OmieClient(77)));
    let call = must_call(run.step(ChargeReply::OmieClient(client())));
    assert!(matches!(call, ChargeCall::Boleto(88)));
    let r = must_row(run.step(ChargeReply::Boleto(omie::Boleto { cLinkBoleto: "http://slip".to_string() })));
    assert_eq!(r, expected_row("http://slip"));
}

#[test]
fn omie_charge_without_slip_link() {
    let (mut run, _) = SingleChargeRun::start(charge(1));
    must_call(run.step(ChargeReply::OmieClient(client())));
    let r = must_row(run.step(ChargeReply::Boleto(omie::Boleto { cLinkBoleto: String::new() })));
    assert_eq!(r, expected_row("Não há cobrança na omie para o cliente"));
}

#[test]
fn asaas_charge_with_invoice() {
    let (mut run, _) = SingleChargeRun::start(charge(ASAAS_ACCOUNT));
    match must_call(run.step(ChargeReply::OmieClient(client()))) {
        ChargeCall::AsaasCustomer(c) => assert_eq!(c, "12/2024"),
        _ => panic!("expected the Asaas customer"),
    }
    match must_call(run.step(ChargeReply::AsaasCustomer(Some(asaas::Client { id: "cus_9".to_string() })))) {
        ChargeCall::AsaasCharges(id) => assert_eq!(id, "cus_9"),
        _ => panic!("expected the Asaas charges"),
    }
    let list = vec![
        asaas::Cobranca { invoiceUrl: "http://first".to_string() },
        asaas::Cobranca { invoiceUrl: "http://second".to_string() },
    ];
    let r = must_row(run.step(ChargeReply::AsaasCharges(Some(list))));
    assert_eq!(r, expected_row("http://first"));
}

#[test]
fn asaas_charge_without_customer() {
    let (mut run, _) = SingleChargeRun::start(charge(ASAAS_ACCOUNT));
    must_call(run.step(ChargeReply::OmieClient(client())));
    let r = must_row(run.step(ChargeReply::AsaasCustomer(None)));
    assert_eq!(r, expected_row("Não encontrado"));
}

#[test]
fn asaas_charge_without_charges() {
    let (mut run, _) = SingleChargeRun::start(charge(ASAAS_ACCOUNT));
    must_call(run.step(ChargeReply::OmieClient(client())));
    must_call(run.step(ChargeReply::AsaasCustomer(Some(asaas::Client { id: "c".to_string() }))));
    let r = must_row(run.step(ChargeReply::AsaasCharges(None)));
    assert_eq!(r, expected_row(""));
}

#[test]
fn charge_rows_are_read_by_the_reminder_run() {
    let (mut run, _) = SingleChargeRun::start(charge(1));
    must_call(run.step(ChargeReply::OmieClient(client())));
    let r = must_row(run.step(ChargeReply::Boleto(omie::Boleto { cLinkBoleto: "l".to_string() })));
    let mut reminders = ReminderRun::new(Some("04/03/2024".to_string()), false, 2).unwrap();
    assert!(reminders.can_read(&r));
    let m = reminders.reminder_for(&r).unwrap();
    assert_eq!(m.phone, "1198765432");
    assert!(reminders.finish_row(r.clone(), true).is_none());
    assert!(reminders.can_read(&r));
    assert!(reminders.reminder_for(&r).is_none());
}
