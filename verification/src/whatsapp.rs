//! The WhatsApp sending service (Z-API): its address, the body of a message
//! and the error of a refused message.

use vstd::prelude::*;
use crate::config::ApiKeyConfig;
use crate::http::{is_success_status, success_status};
use crate::json::{message_json, message_json_text};

verus! {

/// The address to which the messages of an instance are posted.
pub open spec fn send_text_url(instance_id: Seq<char>, token_instance: Seq<char>) -> Seq<char> {
    "https://api.z-api.io/instances/"@ + instance_id + "/token/"@ + token_instance + "/send-text"@
}

/// The address to which the messages are posted, from the credentials.
pub fn whatsapp_url(keys: &ApiKeyConfig) -> (url: String)
    ensures
        url@ == send_text_url(keys.instance_id@, keys.token_instance@),
{
    let mut url = String::from_str("https://api.z-api.io/instances/");
    url.append(keys.instance_id.as_str());
    url.append("/token/");
    url.append(keys.token_instance.as_str());
    url.append("/send-text");
    url
}

/// The address and the key with which messages are sent.
pub struct WhatsappClient {
    pub api_key: String,
    pub base_url: String,
}

impl WhatsappClient {
    /// The sender of an instance: the key of the credentials, and the address
    /// of the instance's messages.
    pub fn new(keys: ApiKeyConfig) -> (c: Self)
        ensures
            c.base_url@ == send_text_url(keys.instance_id@, keys.token_instance@),
            c.api_key == keys.api_key,
    {
        let base_url = whatsapp_url(&keys);
        WhatsappClient { api_key: keys.api_key, base_url }
    }
}

/// The JSON body that sends `message` to the phone number `tel_number`: an
/// object with the fields "message" and "phone", written compactly with the
/// keys in alphabetical order.
pub fn send_message_body(tel_number: &str, message: &str) -> (body: String)
    ensures
        body@ == message_json_text(tel_number@, message@),
{
    message_json(tel_number, message)
}

/// Whether the service accepted the message: a success status.
pub fn message_accepted(status: u16) -> (b: bool)
    ensures
        b == is_success_status(status),
{
    success_status(status)
}

/// The error text of a refused message, from the status as it is displayed
/// (code and reason) and the text of the answer.
pub open spec fn refusal_text(status: Seq<char>, answer: Seq<char>) -> Seq<char> {
    "Erro ao enviar mensagem. Status: "@ + status + ". Resposta: "@ + answer
}

/// The error text of a refused message.
pub fn refusal_message(status: &str, answer: &str) -> (text: String)
    ensures
        text@ == refusal_text(status@, answer@),
{
    let mut text = String::from_str("Erro ao enviar mensagem. Status: ");
    text.append(status);
    text.append(". Resposta: ");
    text.append(answer);
    text
}

} // verus!
