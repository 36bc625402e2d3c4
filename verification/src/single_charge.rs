//! The decisions of turning one overdue charge into a row of the sheet: which
//! service is asked for what, in which order, and what the row holds. The
//! program makes the calls the run asks for and hands each answer back.

use vstd::prelude::*;
use crate::asaas;
use crate::omie;
use crate::phone::{format_phone_number, formatted_phone};
use crate::sheet_updater::{is_due, row_readable};

verus! {

/// The bank account whose charges are collected through Asaas; the charges
/// of every other account have an Omie bank slip.
pub const ASAAS_ACCOUNT: i64 = 1889067132;

/// A call that the run asks the program to make.
pub enum ChargeCall {
    /// The Omie customer with this code.
    OmieClient(i64),
    /// The Asaas customer of this contract number.
    AsaasCustomer(String),
    /// The Asaas charges of the customer with this id.
    AsaasCharges(String),
    /// The Omie bank slip of the bill with this code.
    Boleto(i64),
}

/// The answer to a call.
pub enum ChargeReply {
    OmieClient(omie::Client),
    AsaasCustomer(Option<asaas::Client>),
    AsaasCharges(Option<Vec<asaas::Cobranca>>),
    Boleto(omie::Boleto),
}

/// What the run does next.
pub enum ChargeNext {
    /// Make this call and hand its answer back.
    Call(ChargeCall),
    /// The charge's row is done.
    Row(Vec<String>),
}

/// Where a run stands.
#[derive(PartialEq, Eq, Structural)]
pub enum Stage {
    AwaitingClient,
    AwaitingCustomer,
    AwaitingCharges,
    AwaitingBoleto,
    Done,
}

/// The link written for a charge of the Asaas account whose contract has no
/// Asaas customer.
pub open spec fn customer_not_found() -> Seq<char> {
    "Não encontrado"@
}

/// The link written for a charge whose Omie bank slip has no link.
pub open spec fn no_omie_charge() -> Seq<char> {
    "Não há cobrança na omie para o cliente"@
}

/// The link written for a charge with an Omie bank slip.
pub open spec fn boleto_link(b: omie::Boleto) -> Seq<char> {
    if b.cLinkBoleto@.len() == 0 {
        no_omie_charge()
    } else {
        b.cLinkBoleto@
    }
}

/// The row of a charge: customer name, contract, phone, due date, amount,
/// document number and payment link.
pub open spec fn charge_row(charge: omie::OverdueCharges, client: omie::Client, link: Seq<char>) -> Seq<Seq<char>> {
    seq![
        client.nome_fantasia@,
        charge.cNumeroContrato@,
        formatted_phone(client.telefone1_ddd@, client.telefone1_numero@),
        charge.data_vencimento@,
        charge.valor_documento@,
        client.cnpj_cpf@,
        link,
    ]
}

/// Whether an answer is of the kind that a stage waits for (and, for a list
/// of Asaas charges, holds at least one charge, whose link is read).
pub open spec fn answers(stage: Stage, reply: ChargeReply) -> bool {
    match reply {
        ChargeReply::OmieClient(_) => stage == Stage::AwaitingClient,
        ChargeReply::AsaasCustomer(_) => stage == Stage::AwaitingCustomer,
        ChargeReply::AsaasCharges(list) => stage == Stage::AwaitingCharges && (list matches Some(
            l,
        ) ==> l@.len() > 0),
        ChargeReply::Boleto(_) => stage == Stage::AwaitingBoleto,
    }
}

/// A row made for a charge is one that a reminder run can read, and it is due
/// a reminder exactly when its due date is the date looked for and its phone
/// was not reminded yet in the run.
pub proof fn law_charge_rows_are_remindable(
    charge: omie::OverdueCharges,
    client: omie::Client,
    link: Seq<char>,
    sent: Seq<Seq<char>>,
    date: Seq<char>,
)
    ensures
        row_readable(charge_row(charge, client, link), sent),
        is_due(charge_row(charge, client, link), sent, date) <==> (!sent.contains(
            formatted_phone(client.telefone1_ddd@, client.telefone1_numero@),
        ) && charge.data_vencimento@ == date),
{
}

/// The run of one charge.
pub struct SingleChargeRun {
    charge: omie::OverdueCharges,
    client: Option<omie::Client>,
    stage: Stage,
}

impl SingleChargeRun {
    /// The charge of the run.
    pub closed spec fn charge(&self) -> omie::OverdueCharges {
        self.charge
    }

    /// The Omie customer, once it is known.
    pub closed spec fn client(&self) -> Option<omie::Client> {
        self.client
    }

    /// Where the run stands.
    pub closed spec fn stage(&self) -> Stage {
        self.stage
    }

    /// The invariant of a run: the customer is known exactly after the first
    /// answer.
    pub closed spec fn wf(&self) -> bool {
        self.client is None <==> self.stage == Stage::AwaitingClient
    }

    /// A run for a charge; the first call asks Omie for the customer of the
    /// charge.
    pub fn start(charge: omie::OverdueCharges) -> (res: (Self, ChargeCall))
        ensures
            res.0.wf(),
            res.0.charge() == charge,
            res.0.stage() == Stage::AwaitingClient,
            res.1 == ChargeCall::OmieClient(charge.codigo_cliente_fornecedor),
    {
        let code = charge.codigo_cliente_fornecedor;
        (SingleChargeRun { charge, client: None, stage: Stage::AwaitingClient }, ChargeCall::OmieClient(code))
    }

    fn finish(&mut self, link: String) -> (next: ChargeNext)
        requires
            old(self).wf(),
            old(self).stage() != Stage::AwaitingClient,
        ensures
            final(self).wf(),
            final(self).stage() == Stage::Done,
            final(self).charge() == old(self).charge(),
            final(self).client() == old(self).client(),
            next matches ChargeNext::Row(row) && row.deep_view() == charge_row(
                old(self).charge(),
                old(self).client()->0,
                link@,
            ),
    {
        let row = match &self.client {
            Some(client) => {
                let tel = format_phone_number(
                    client.telefone1_ddd.clone(),
                    client.telefone1_numero.clone(),
                );
                vec![
                    client.nome_fantasia.clone(),
                    self.charge.cNumeroContrato.clone(),
                    tel,
                    self.charge.data_vencimento.clone(),
                    self.charge.valor_documento.clone(),
                    client.cnpj_cpf.clone(),
                    link,
                ]
            },
            None => Vec::new(),
        };
        self.stage = Stage::Done;
        assert(row.deep_view() =~= charge_row(self.charge, self.client->0, link@));
        ChargeNext::Row(row)
    }

    /// Hands the answer to the last call back to the run, which says what
    /// comes next. With the Omie customer, a charge of the Asaas account asks
    /// Asaas for the customer of its contract, and any other charge asks Omie
    /// for its bank slip. Without an Asaas customer the link is "Não
    /// encontrado"; with one, Asaas is asked for its charges, and the link is
    /// that of the first charge, or empty when Asaas has no charges for it.
    /// A bank slip gives its link, or "Não há cobrança na omie para o cliente"
    /// when the link is empty.
    pub fn step(&mut self, reply: ChargeReply) -> (next: ChargeNext)
        requires
            old(self).wf(),
            answers(old(self).stage(), reply),
        ensures
            final(self).wf(),
            final(self).charge() == old(self).charge(),
            match reply {
                ChargeReply::OmieClient(client) => {
                    &&& final(self).client() == Some(client)
                    &&& if old(self).charge().id_conta_corrente == ASAAS_ACCOUNT {
                        &&& final(self).stage() == Stage::AwaitingCustomer
                        &&& next matches ChargeNext::Call(ChargeCall::AsaasCustomer(contract))
                        &&& contract@ == old(self).charge().cNumeroContrato@
                    } else {
                        &&& final(self).stage() == Stage::AwaitingBoleto
                        &&& next == ChargeNext::Call(
                            ChargeCall::Boleto(old(self).charge().codigo_lancamento_omie),
                        )
                    }
                },
                ChargeReply::AsaasCustomer(None) => {
                    &&& final(self).stage() == Stage::Done
                    &&& next matches ChargeNext::Row(row) && row.deep_view() == charge_row(
                        old(self).charge(),
                        old(self).client()->0,
                        customer_not_found(),
                    )
                },
                ChargeReply::AsaasCustomer(Some(customer)) => {
                    &&& final(self).client() == old(self).client()
                    &&& final(self).stage() == Stage::AwaitingCharges
                    &&& next matches ChargeNext::Call(ChargeCall::AsaasCharges(id))
                    &&& id@ == customer.id@
                },
                ChargeReply::AsaasCharges(None) => {
                    &&& final(self).stage() == Stage::Done
                    &&& next matches ChargeNext::Row(row) && row.deep_view() == charge_row(
                        old(self).charge(),
                        old(self).client()->0,
                        Seq::empty(),
                    )
                },
                ChargeReply::AsaasCharges(Some(list)) => {
                    &&& final(self).stage() == Stage::Done
                    &&& next matches ChargeNext::Row(row) && row.deep_view() == charge_row(
                        old(self).charge(),
                        old(self).client()->0,
                        list@[0].invoiceUrl@,
                    )
                },
                ChargeReply::Boleto(b) => {
                    &&& final(self).stage() == Stage::Done
                    &&& next matches ChargeNext::Row(row) && row.deep_view() == charge_row(
                        old(self).charge(),
                        old(self).client()->0,
                        boleto_link(b),
                    )
                },
            },
    {
        match reply {
            ChargeReply::OmieClient(client) => {
                self.client = Some(client);
                if self.charge.id_conta_corrente == ASAAS_ACCOUNT {
                    self.stage = Stage::AwaitingCustomer;
                    ChargeNext::Call(ChargeCall::AsaasCustomer(self.charge.cNumeroContrato.clone()))
                } else {
                    self.stage = Stage::AwaitingBoleto;
                    ChargeNext::Call(ChargeCall::Boleto(self.charge.codigo_lancamento_omie))
                }
            },
            ChargeReply::AsaasCustomer(None) => self.finish(String::from_str("Não encontrado")),
            ChargeReply::AsaasCustomer(Some(customer)) => {
                self.stage = Stage::AwaitingCharges;
                ChargeNext::Call(ChargeCall::AsaasCharges(customer.id))
            },
            ChargeReply::AsaasCharges(None) => self.finish(String::new()),
            ChargeReply::AsaasCharges(Some(list)) => {
                let link = list[0].invoiceUrl.clone();
                self.finish(link)
            },
            ChargeReply::Boleto(b) => {
                let link = if b.cLinkBoleto.as_str().unicode_len() == 0 {
                    String::from_str("Não há cobrança na omie para o cliente")
                } else {
                    b.cLinkBoleto
                };
                self.finish(link)
            },
        }
    }
}

} // verus!
