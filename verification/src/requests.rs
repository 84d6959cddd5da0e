//! The five operations of the authentication service: typed requests,
//! their builders, and their wire encodings.
//!
//! Every operation encodes to a JSON object holding exactly the fields
//! that are present: an optional field left unset produces no member at
//! all, never a null. Each request also knows its endpoint path; the
//! expected success status lives with the response handling in
//! `errors`.

use vstd::prelude::*;

use crate::json::{obj_view, ser_val, Json, JsonVal};
use crate::objects::Profile;
use vstd::string::{StrSliceExecFns, StringExecFns, StringSliceAdditionalSpecFns};
use vstd::utf8::encode_utf8;

verus! {

/// Timeout applied when the caller does not override it, in seconds;
/// used for both the overall and the connect-only timeout.
pub const DEFAULT_TIMEOUT_SECS: u64 = 10;

/// The client program identification sent with every authenticate call.
#[derive(Debug, Clone, PartialEq, Eq)]
pub struct Agent<'a> {
    pub name: &'a str,
    pub version: u32,
}

/// A member that is present only when the optional string is set.
pub open spec fn opt_str_member(key: Seq<u8>, v: Option<String>) -> Seq<(Seq<u8>, JsonVal)> {
    match v {
        Some(s) => seq![(key, JsonVal::Str(encode_utf8(s@)))],
        None => Seq::empty(),
    }
}

/// A member that is present only when the optional flag is set.
pub open spec fn opt_bool_member(key: Seq<u8>, v: Option<bool>) -> Seq<(Seq<u8>, JsonVal)> {
    match v {
        Some(b) => seq![(key, JsonVal::Bool(b))],
        None => Seq::empty(),
    }
}

/// The JSON document of a profile reference: id and name, the legacy
/// flag only when set.
pub open spec fn profile_json(p: Profile) -> JsonVal {
    JsonVal::Obj(
        seq![
            ("id".spec_bytes(), JsonVal::Str(encode_utf8(p.id@))),
            ("name".spec_bytes(), JsonVal::Str(encode_utf8(p.name@))),
        ] + opt_bool_member("legacy".spec_bytes(), p.legacy),
    )
}

/// A member that is present only when the optional profile is set.
pub open spec fn opt_profile_member(key: Seq<u8>, v: Option<Profile>) -> Seq<(Seq<u8>, JsonVal)> {
    match v {
        Some(p) => seq![(key, profile_json(p))],
        None => Seq::empty(),
    }
}

pub open spec fn agent_json(a: Agent) -> JsonVal {
    JsonVal::Obj(
        seq![
            ("name".spec_bytes(), JsonVal::Str(a.name.spec_bytes())),
            ("version".spec_bytes(), JsonVal::UInt(a.version as u64)),
        ],
    )
}

fn str_vec(s: &str) -> (r: Vec<u8>)
    ensures
        r@ == s.spec_bytes(),
{
    s.as_bytes_vec()
}

fn profile_to_json(p: &Profile) -> (j: Json)
    ensures
        j@ == profile_json(*p),
{
    let mut members: Vec<(Vec<u8>, Json)> = Vec::new();
    members.push((str_vec("id"), Json::Str(str_vec(p.id.as_str()))));
    members.push((str_vec("name"), Json::Str(str_vec(p.name.as_str()))));
    match &p.legacy {
        Some(b) => {
            members.push((str_vec("legacy"), Json::Bool(*b)));
        },
        None => {},
    }
    let j = Json::Obj(members);
    proof {
        assert(obj_view(members@) =~= profile_json(*p)->Obj_0);
    }
    j
}

fn build_url(api: &str, endpoint: &str) -> (r: String)
    ensures
        r@ == api@ + endpoint@,
{
    let mut url = api.to_owned();
    url.append(endpoint);
    url
}

/// The one header every exchange carries.
pub fn content_type_header() -> (r: &'static str)
    ensures
        r@ == "Content-Type: application/json"@,
{
    "Content-Type: application/json"
}

/// The fixed string this client identifies itself as.
pub fn user_agent() -> (r: &'static str)
    ensures
        r@ == "yggdrasil_client/0.1.0"@,
{
    "yggdrasil_client/0.1.0"
}

/// One HTTP exchange, fully described: where to post, what to send,
/// and how long to wait. The transport that performs it adds nothing
/// but the mechanics (it posts the body to the url with the
/// `content_type_header`, follows redirects, accepts any content
/// encoding, and identifies this client as the `user_agent`).
pub struct HttpRequest {
    pub url: String,
    pub body: Vec<u8>,
    pub timeout_sec: u64,
    pub connect_timeout_sec: u64,
}

/// The authenticate operation: log an account in.
#[derive(Debug, Clone, PartialEq, Eq)]
pub struct Authenticate<'a> {
    pub agent: Agent<'a>,
    pub username: String,
    pub password: String,
    pub client_token: Option<String>,
    pub request_user: Option<bool>,
}

/// The JSON document of an authenticate request.
pub open spec fn authenticate_json(r: Authenticate) -> JsonVal {
    JsonVal::Obj(
        seq![
            ("agent".spec_bytes(), agent_json(r.agent)),
            ("username".spec_bytes(), JsonVal::Str(encode_utf8(r.username@))),
            ("password".spec_bytes(), JsonVal::Str(encode_utf8(r.password@))),
        ] + opt_str_member("clientToken".spec_bytes(), r.client_token) + opt_bool_member(
            "requestUser".spec_bytes(),
            r.request_user,
        ),
    )
}

/// An unset optional field produces no member at all, never a null: an
/// authenticate request without clientToken and requestUser encodes to
/// an object of exactly the three mandatory members.
pub proof fn lemma_authenticate_absent_fields_omitted(r: Authenticate)
    requires
        r.client_token is None,
        r.request_user is None,
    ensures
        authenticate_json(r) == JsonVal::Obj(
            seq![
                ("agent".spec_bytes(), agent_json(r.agent)),
                ("username".spec_bytes(), JsonVal::Str(encode_utf8(r.username@))),
                ("password".spec_bytes(), JsonVal::Str(encode_utf8(r.password@))),
            ],
        ),
{
    assert(authenticate_json(r)->Obj_0 =~= seq![
        ("agent".spec_bytes(), agent_json(r.agent)),
        ("username".spec_bytes(), JsonVal::Str(encode_utf8(r.username@))),
        ("password".spec_bytes(), JsonVal::Str(encode_utf8(r.password@))),
    ]);
}

/// The same omission law for a refresh request without selectedProfile
/// and requestUser: exactly the two token members.
pub proof fn lemma_refresh_absent_fields_omitted(r: Refresh)
    requires
        r.selected_profile is None,
        r.request_user is None,
    ensures
        refresh_json(r) == JsonVal::Obj(
            seq![
                ("accessToken".spec_bytes(), JsonVal::Str(encode_utf8(r.access_token@))),
                ("clientToken".spec_bytes(), JsonVal::Str(encode_utf8(r.client_token@))),
            ],
        ),
{
    assert(refresh_json(r)->Obj_0 =~= seq![
        ("accessToken".spec_bytes(), JsonVal::Str(encode_utf8(r.access_token@))),
        ("clientToken".spec_bytes(), JsonVal::Str(encode_utf8(r.client_token@))),
    ]);
}

impl<'a> Authenticate<'a> {
    /// A request with the mandatory fields only; the agent is fixed.
    pub fn new(username: String, password: String) -> (r: Authenticate<'a>)
        ensures
            r.agent.name@ == "Minecraft"@,
            r.agent.version == 1,
            r.username == username,
            r.password == password,
            r.client_token is None,
            r.request_user is None,
    {
        Authenticate {
            agent: Agent { name: "Minecraft", version: 1 },
            username,
            password,
            client_token: None,
            request_user: None,
        }
    }

    /// The same request with the client token set.
    pub fn client_token(self, token: String) -> (r: Self)
        ensures
            r.agent == self.agent,
            r.username == self.username,
            r.password == self.password,
            r.client_token == Some(token),
            r.request_user == self.request_user,
    {
        Authenticate { client_token: Some(token), ..self }
    }

    /// The same request with the request-user flag set.
    pub fn request_user(self, t: bool) -> (r: Self)
        ensures
            r.agent == self.agent,
            r.username == self.username,
            r.password == self.password,
            r.client_token == self.client_token,
            r.request_user == Some(t),
    {
        Authenticate { request_user: Some(t), ..self }
    }

    fn to_json(&self) -> (j: Json)
        ensures
            j@ == authenticate_json(*self),
    {
        let mut agent_members: Vec<(Vec<u8>, Json)> = Vec::new();
        agent_members.push((str_vec("name"), Json::Str(str_vec(self.agent.name))));
        agent_members.push((str_vec("version"), Json::UInt(self.agent.version as u64)));
        let mut members: Vec<(Vec<u8>, Json)> = Vec::new();
        members.push((str_vec("agent"), Json::Obj(agent_members)));
        members.push((str_vec("username"), Json::Str(str_vec(self.username.as_str()))));
        members.push((str_vec("password"), Json::Str(str_vec(self.password.as_str()))));
        match &self.client_token {
            Some(t) => {
                members.push((str_vec("clientToken"), Json::Str(str_vec(t.as_str()))));
            },
            None => {},
        }
        match &self.request_user {
            Some(b) => {
                members.push((str_vec("requestUser"), Json::Bool(*b)));
            },
            None => {},
        }
        let j = Json::Obj(members);
        proof {
            assert(obj_view(agent_members@) =~= agent_json(self.agent)->Obj_0);
            assert(obj_view(members@) =~= authenticate_json(*self)->Obj_0);
        }
        j
    }

    /// The wire payload of this request.
    pub fn encode(&self) -> (out: Vec<u8>)
        ensures
            out@ == ser_val(authenticate_json(*self)),
    {
        self.to_json().to_bytes()
    }

    /// The full HTTP exchange for this request against the given base
    /// url.
    pub fn http_request(&self, api: &str, timeout_sec: u64, connect_timeout_sec: u64) -> (r:
        HttpRequest)
        ensures
            r.url@ == api@ + "/authenticate"@,
            r.body@ == ser_val(authenticate_json(*self)),
            r.timeout_sec == timeout_sec,
            r.connect_timeout_sec == connect_timeout_sec,
    {
        HttpRequest {
            url: build_url(api, "/authenticate"),
            body: self.encode(),
            timeout_sec,
            connect_timeout_sec,
        }
    }
}

/// The refresh operation: trade a valid token pair for a fresh one.
#[derive(Debug, Clone, PartialEq, Eq)]
pub struct Refresh {
    pub access_token: String,
    pub client_token: String,
    pub selected_profile: Option<Profile>,
    pub request_user: Option<bool>,
}

/// The JSON document of a refresh request.
pub open spec fn refresh_json(r: Refresh) -> JsonVal {
    JsonVal::Obj(
        seq![
            ("accessToken".spec_bytes(), JsonVal::Str(encode_utf8(r.access_token@))),
            ("clientToken".spec_bytes(), JsonVal::Str(encode_utf8(r.client_token@))),
        ] + opt_profile_member("selectedProfile".spec_bytes(), r.selected_profile)
            + opt_bool_member("requestUser".spec_bytes(), r.request_user),
    )
}

impl Refresh {
    /// A request with the mandatory token pair only.
    pub fn new(access_token: String, client_token: String) -> (r: Self)
        ensures
            r.access_token == access_token,
            r.client_token == client_token,
            r.selected_profile is None,
            r.request_user is None,
    {
        Refresh { access_token, client_token, selected_profile: None, request_user: None }
    }

    /// The same request with the profile to select set.
    pub fn selected_profile(self, profile: Profile) -> (r: Self)
        ensures
            r.access_token == self.access_token,
            r.client_token == self.client_token,
            r.selected_profile == Some(profile),
            r.request_user == self.request_user,
    {
        Refresh { selected_profile: Some(profile), ..self }
    }

    /// The same request with the request-user flag set.
    pub fn request_user(self, t: bool) -> (r: Self)
        ensures
            r.access_token == self.access_token,
            r.client_token == self.client_token,
            r.selected_profile == self.selected_profile,
            r.request_user == Some(t),
    {
        Refresh { request_user: Some(t), ..self }
    }

    fn to_json(&self) -> (j: Json)
        ensures
            j@ == refresh_json(*self),
    {
        let mut members: Vec<(Vec<u8>, Json)> = Vec::new();
        members.push((str_vec("accessToken"), Json::Str(str_vec(self.access_token.as_str()))));
        members.push((str_vec("clientToken"), Json::Str(str_vec(self.client_token.as_str()))));
        match &self.selected_profile {
            Some(p) => {
                members.push((str_vec("selectedProfile"), profile_to_json(p)));
            },
            None => {},
        }
        match &self.request_user {
            Some(b) => {
                members.push((str_vec("requestUser"), Json::Bool(*b)));
            },
            None => {},
        }
        let j = Json::Obj(members);
        proof {
            assert(obj_view(members@) =~= refresh_json(*self)->Obj_0);
        }
        j
    }

    /// The wire payload of this request.
    pub fn encode(&self) -> (out: Vec<u8>)
        ensures
            out@ == ser_val(refresh_json(*self)),
    {
        self.to_json().to_bytes()
    }

    /// The full HTTP exchange for this request against the given base
    /// url.
    pub fn http_request(&self, api: &str, timeout_sec: u64, connect_timeout_sec: u64) -> (r:
        HttpRequest)
        ensures
            r.url@ == api@ + "/refresh"@,
            r.body@ == ser_val(refresh_json(*self)),
            r.timeout_sec == timeout_sec,
            r.connect_timeout_sec == connect_timeout_sec,
    {
        HttpRequest {
            url: build_url(api, "/refresh"),
            body: self.encode(),
            timeout_sec,
            connect_timeout_sec,
        }
    }
}

/// The validate operation: ask whether a token pair is still usable.
#[derive(Debug, Clone, PartialEq, Eq)]
pub struct Validate {
    pub access_token: String,
    pub client_token: String,
}

/// The JSON document of a validate request.
pub open spec fn validate_json(r: Validate) -> JsonVal {
    JsonVal::Obj(
        seq![
            ("accessToken".spec_bytes(), JsonVal::Str(encode_utf8(r.access_token@))),
            ("clientToken".spec_bytes(), JsonVal::Str(encode_utf8(r.client_token@))),
        ],
    )
}

impl Validate {
    pub fn new(access_token: String, client_token: String) -> (r: Self)
        ensures
            r.access_token == access_token,
            r.client_token == client_token,
    {
        Validate { access_token, client_token }
    }

    fn to_json(&self) -> (j: Json)
        ensures
            j@ == validate_json(*self),
    {
        let mut members: Vec<(Vec<u8>, Json)> = Vec::new();
        members.push((str_vec("accessToken"), Json::Str(str_vec(self.access_token.as_str()))));
        members.push((str_vec("clientToken"), Json::Str(str_vec(self.client_token.as_str()))));
        let j = Json::Obj(members);
        proof {
            assert(obj_view(members@) =~= validate_json(*self)->Obj_0);
        }
        j
    }

    /// The wire payload of this request.
    pub fn encode(&self) -> (out: Vec<u8>)
        ensures
            out@ == ser_val(validate_json(*self)),
    {
        self.to_json().to_bytes()
    }

    /// The full HTTP exchange for this request against the given base
    /// url.
    pub fn http_request(&self, api: &str, timeout_sec: u64, connect_timeout_sec: u64) -> (r:
        HttpRequest)
        ensures
            r.url@ == api@ + "/validate"@,
            r.body@ == ser_val(validate_json(*self)),
            r.timeout_sec == timeout_sec,
            r.connect_timeout_sec == connect_timeout_sec,
    {
        HttpRequest {
            url: build_url(api, "/validate"),
            body: self.encode(),
            timeout_sec,
            connect_timeout_sec,
        }
    }
}

/// The signout operation: invalidate every token of an account, by
/// credentials.
#[derive(Debug, Clone, PartialEq, Eq)]
pub struct Signout {
    pub username: String,
    pub password: String,
}

/// The JSON document of a signout request.
pub open spec fn signout_json(r: Signout) -> JsonVal {
    JsonVal::Obj(
        seq![
            ("username".spec_bytes(), JsonVal::Str(encode_utf8(r.username@))),
            ("password".spec_bytes(), JsonVal::Str(encode_utf8(r.password@))),
        ],
    )
}

impl Signout {
    pub fn new(username: String, password: String) -> (r: Self)
        ensures
            r.username == username,
            r.password == password,
    {
        Signout { username, password }
    }

    fn to_json(&self) -> (j: Json)
        ensures
            j@ == signout_json(*self),
    {
        let mut members: Vec<(Vec<u8>, Json)> = Vec::new();
        members.push((str_vec("username"), Json::Str(str_vec(self.username.as_str()))));
        members.push((str_vec("password"), Json::Str(str_vec(self.password.as_str()))));
        let j = Json::Obj(members);
        proof {
            assert(obj_view(members@) =~= signout_json(*self)->Obj_0);
        }
        j
    }

    /// The wire payload of this request.
    pub fn encode(&self) -> (out: Vec<u8>)
        ensures
            out@ == ser_val(signout_json(*self)),
    {
        self.to_json().to_bytes()
    }

    /// The full HTTP exchange for this request against the given base
    /// url.
    pub fn http_request(&self, api: &str, timeout_sec: u64, connect_timeout_sec: u64) -> (r:
        HttpRequest)
        ensures
            r.url@ == api@ + "/signout"@,
            r.body@ == ser_val(signout_json(*self)),
            r.timeout_sec == timeout_sec,
            r.connect_timeout_sec == connect_timeout_sec,
    {
        HttpRequest {
            url: build_url(api, "/signout"),
            body: self.encode(),
            timeout_sec,
            connect_timeout_sec,
        }
    }
}

/// The invalidate operation: invalidate one token pair.
#[derive(Debug, Clone, PartialEq, Eq)]
pub struct Invalidate {
    pub access_token: String,
    pub client_token: String,
}

/// The JSON document of an invalidate request.
pub open spec fn invalidate_json(r: Invalidate) -> JsonVal {
    JsonVal::Obj(
        seq![
            ("accessToken".spec_bytes(), JsonVal::Str(encode_utf8(r.access_token@))),
            ("clientToken".spec_bytes(), JsonVal::Str(encode_utf8(r.client_token@))),
        ],
    )
}

impl Invalidate {
    pub fn new(access_token: String, client_token: String) -> (r: Self)
        ensures
            r.access_token == access_token,
            r.client_token == client_token,
    {
        Invalidate { access_token, client_token }
    }

    fn to_json(&self) -> (j: Json)
        ensures
            j@ == invalidate_json(*self),
    {
        let mut members: Vec<(Vec<u8>, Json)> = Vec::new();
        members.push((str_vec("accessToken"), Json::Str(str_vec(self.access_token.as_str()))));
        members.push((str_vec("clientToken"), Json::Str(str_vec(self.client_token.as_str()))));
        let j = Json::Obj(members);
        proof {
            assert(obj_view(members@) =~= invalidate_json(*self)->Obj_0);
        }
        j
    }

    /// The wire payload of this request.
    pub fn encode(&self) -> (out: Vec<u8>)
        ensures
            out@ == ser_val(invalidate_json(*self)),
    {
        self.to_json().to_bytes()
    }

    /// The full HTTP exchange for this request against the given base
    /// url.
    pub fn http_request(&self, api: &str, timeout_sec: u64, connect_timeout_sec: u64) -> (r:
        HttpRequest)
        ensures
            r.url@ == api@ + "/invalidate"@,
            r.body@ == ser_val(invalidate_json(*self)),
            r.timeout_sec == timeout_sec,
            r.connect_timeout_sec == connect_timeout_sec,
    {
        HttpRequest {
            url: build_url(api, "/invalidate"),
            body: self.encode(),
            timeout_sec,
            connect_timeout_sec,
        }
    }
}

} // verus!
