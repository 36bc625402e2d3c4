//! The WhatsApp credentials that the program reads from its environment.

use vstd::prelude::*;

verus! {

/// The credentials of the WhatsApp sending service.
pub struct ApiKeyConfig {
    pub api_key: String,
    pub instance_id: String,
    pub token_instance: String,
}

/// The credentials from the values of `API_KEY_WHATSAPP`,
/// `INSTANCE_ID_WHATSAPP` and `TOKEN_INSTANCE_WHATSAPP`. All three must be
/// set: the program reads them in that order and stops at the first that is
/// not.
pub fn get_keys(api_key: String, instance_id: String, token_instance: String) -> (keys: ApiKeyConfig)
    ensures
        keys.api_key == api_key,
        keys.instance_id == instance_id,
        keys.token_instance == token_instance,
{
    ApiKeyConfig { api_key, instance_id, token_instance }
}

} // verus!
