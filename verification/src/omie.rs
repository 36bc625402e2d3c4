//! The Omie API: the records the program reads from it and the requests it
//! makes.

use vstd::prelude::*;
use crate::http::{HttpGet, query_view};
use crate::text::{push_signed_decimal, signed_decimal};

verus! {

/// The answer to the list of overdue bills.
pub struct ResponseOverdueCharges {
    pub conta_receber_cadastro: Vec<OverdueCharges>,
}

/// An overdue bill. The amount is held as the text that Rust's `Display`
/// writes for the amount the API sends (a floating-point number), which is all
/// that the program does with it.
#[allow(non_snake_case)]
pub struct OverdueCharges {
    pub codigo_cliente_fornecedor: i64,
    pub codigo_lancamento_omie: i64,
    pub id_conta_corrente: i64,
    pub data_vencimento: String,
    pub valor_documento: String,
    pub cNumeroContrato: String,
}

/// A customer as Omie describes it.
pub struct Client {
    pub cnpj_cpf: String,
    pub nome_fantasia: String,
    pub telefone1_ddd: String,
    pub telefone1_numero: String,
}

/// The bank slip of a bill; an empty link when there is none.
#[allow(non_snake_case)]
pub struct Boleto {
    pub cLinkBoleto: String,
}

/// The requests made to Omie.
pub enum OmieRequest {
    /// The overdue bills.
    OverdueCharges,
    /// A customer, by code.
    Client(i64),
    /// The bank slip of a bill, by code.
    Boleto(i64),
}

/// The address of the Omie API.
pub open spec fn omie_base() -> Seq<char> {
    "https://apitdnomieasaas.squareweb.app/omie/"@
}

/// The URL of a request.
pub open spec fn omie_url(req: OmieRequest) -> Seq<char> {
    match req {
        OmieRequest::OverdueCharges => omie_base() + "bills"@,
        OmieRequest::Client(code) => omie_base() + "client/"@ + signed_decimal(code as int),
        OmieRequest::Boleto(_) => omie_base() + "boleto"@,
    }
}

/// The query parameters of a request.
pub open spec fn omie_query(req: OmieRequest) -> Seq<(Seq<char>, Seq<char>)> {
    match req {
        OmieRequest::OverdueCharges => seq![("status"@, "ATRASADO"@)],
        OmieRequest::Client(_) => Seq::empty(),
        OmieRequest::Boleto(code) => seq![("nCodTitulo"@, signed_decimal(code as int))],
    }
}

/// The URL and query of an Omie request.
pub fn omie_request(req: &OmieRequest) -> (r: HttpGet)
    ensures
        r.url@ == omie_url(*req),
        query_view(r.query@) == omie_query(*req),
{
    let mut url = String::from_str("https://apitdnomieasaas.squareweb.app/omie/");
    let mut query: Vec<(String, String)> = Vec::new();
    match req {
        OmieRequest::OverdueCharges => {
            url.append("bills");
            query.push((String::from_str("status"), String::from_str("ATRASADO")));
        },
        OmieRequest::Client(code) => {
            url.append("client/");
            push_signed_decimal(&mut url, *code);
        },
        OmieRequest::Boleto(code) => {
            url.append("boleto");
            let mut value = String::new();
            push_signed_decimal(&mut value, *code);
            query.push((String::from_str("nCodTitulo"), value));
        },
    }
    assert(query_view(query@) =~= omie_query(*req));
    HttpGet { url, query }
}

} // verus!
