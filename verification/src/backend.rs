//! The connection settings for the wandb backend: its base URL and the
//! credentials sent with every request.

use vstd::prelude::*;

use crate::digest::{base64_encode, base64_standard};

verus! {

broadcast use vstd::string::group_string_axioms;

/// The default wandb API endpoint.
pub open spec fn default_api_url() -> Seq<char> {
    "https://api.wandb.ai"@
}

/// The `Authorization` header value for an API key: HTTP basic
/// authentication of user `api` with the key as password.
pub open spec fn basic_auth(api_key: Seq<char>) -> Seq<char> {
    "Basic "@ + base64_standard(vstd::utf8::encode_utf8("api:"@ + api_key))
}

/// The `Authorization` value starts with `Basic `, and it keeps the whole
/// key: two keys give the same value only when they are the same key.
pub proof fn law_basic_auth(k1: Seq<char>, k2: Seq<char>)
    ensures
        basic_auth(k1).take(6) == "Basic "@,
        basic_auth(k1) == basic_auth(k2) ==> k1 == k2,
{
    reveal_strlit("Basic ");
    reveal_strlit("api:");
    let (c1, c2) = ("api:"@ + k1, "api:"@ + k2);
    let (b1, b2) = (vstd::utf8::encode_utf8(c1), vstd::utf8::encode_utf8(c2));
    assert(basic_auth(k1).take(6) =~= "Basic "@);
    if basic_auth(k1) == basic_auth(k2) {
        assert(basic_auth(k1).skip(6) =~= base64_standard(b1));
        assert(basic_auth(k2).skip(6) =~= base64_standard(b2));
        crate::digest::lemma_base64_injective(b1, b2);
        vstd::utf8::encode_utf8_decode_utf8(c1);
        vstd::utf8::encode_utf8_decode_utf8(c2);
        assert(k1 =~= c1.skip(4));
        assert(k2 =~= c2.skip(4));
    }
}

/// The settings used to talk to the wandb backend.
pub struct Backend {
    base_url: String,
    authorization: String,
}

impl Backend {
    /// The settings for the default endpoint, authenticated with `api_key`.
    pub fn new(api_key: &str) -> (r: Backend)
        ensures
            r.spec_base_url() == default_api_url(),
            r.spec_authorization() == basic_auth(api_key@),
    {
        let mut credentials = String::new();
        credentials.append("api:");
        credentials.append(api_key);
        let bytes = credentials.as_str().as_bytes_vec();
        let encoded = base64_encode(bytes.as_slice());
        let mut authorization = String::new();
        authorization.append("Basic ");
        authorization.append(encoded.as_str());
        Backend { base_url: "https://api.wandb.ai".to_string(), authorization }
    }

    /// The base URL of the backend.
    pub closed spec fn spec_base_url(&self) -> Seq<char> {
        self.base_url@
    }

    /// The `Authorization` header value sent with requests.
    pub closed spec fn spec_authorization(&self) -> Seq<char> {
        self.authorization@
    }

    /// The base URL of the backend.
    pub fn base_url(&self) -> (r: &str)
        ensures
            r@ == self.spec_base_url(),
    {
        self.base_url.as_str()
    }

    /// The `Authorization` header value sent with requests.
    pub fn authorization(&self) -> (r: &str)
        ensures
            r@ == self.spec_authorization(),
    {
        self.authorization.as_str()
    }

    /// The `User-Agent` header value sent with requests.
    pub fn user_agent() -> (r: String)
        ensures
            r@ == "wandb-core"@,
    {
        "wandb-core".to_string()
    }
}

} // verus!
