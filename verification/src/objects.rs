//! Typed values returned by the authentication service, and the
//! decoders that read them out of parsed JSON documents.
//!
//! Every decoder has a specification twin over `JsonVal` that pins down
//! exactly which documents decode and to what: unknown members are
//! ignored, a missing or null optional member decodes to `None`, and a
//! missing mandatory member fails the decode. String values must be
//! valid UTF-8.

use vstd::prelude::*;

use crate::json::{arr_view, obj_view, Json, JsonVal};
use vstd::string::StringSliceAdditionalSpecFns;
use vstd::utf8::{encode_utf8, valid_utf8};

verus! {

/// The error envelope the service returns when it rejects a call.
#[derive(Debug, Clone, PartialEq, Eq)]
pub struct Error {
    pub error: String,
    pub error_message: String,
    pub cause: Option<String>,
}

/// A selectable account identity.
#[derive(Debug, Clone, PartialEq, Eq)]
pub struct Profile {
    pub id: String,
    pub name: String,
    pub legacy: Option<bool>,
}

/// An opaque key/value pair attached to a user.
#[derive(Debug, Clone, PartialEq, Eq)]
pub struct Property {
    pub name: String,
    pub value: String,
}

/// The account record optionally returned alongside a session.
#[derive(Debug, Clone, PartialEq, Eq)]
pub struct User {
    pub id: String,
    pub properties: Vec<Property>,
}

/// The result of a successful authenticate call.
#[derive(Debug, Clone, PartialEq, Eq)]
pub struct Authenticate {
    pub access_token: String,
    pub client_token: String,
    pub available_profiles: Vec<Profile>,
    pub selected_profile: Option<Profile>,
    pub user: Option<User>,
}

/// The result of a successful refresh call: like `Authenticate`, but
/// the selected profile is mandatory.
#[derive(Debug, Clone, PartialEq, Eq)]
pub struct Refresh {
    pub access_token: String,
    pub client_token: String,
    pub selected_profile: Profile,
    pub user: Option<User>,
}

// The views of the typed values: the same records over raw UTF-8 bytes,
// which is what the wire-level specifications speak about.

pub struct ErrorV {
    pub error: Seq<u8>,
    pub error_message: Seq<u8>,
    pub cause: Option<Seq<u8>>,
}

pub struct ProfileV {
    pub id: Seq<u8>,
    pub name: Seq<u8>,
    pub legacy: Option<bool>,
}

pub struct PropertyV {
    pub name: Seq<u8>,
    pub value: Seq<u8>,
}

pub struct UserV {
    pub id: Seq<u8>,
    pub properties: Seq<PropertyV>,
}

pub struct AuthenticateV {
    pub access_token: Seq<u8>,
    pub client_token: Seq<u8>,
    pub available_profiles: Seq<ProfileV>,
    pub selected_profile: Option<ProfileV>,
    pub user: Option<UserV>,
}

pub struct RefreshV {
    pub access_token: Seq<u8>,
    pub client_token: Seq<u8>,
    pub selected_profile: ProfileV,
    pub user: Option<UserV>,
}

/// The UTF-8 bytes of an optional string.
pub open spec fn opt_bytes(o: Option<String>) -> Option<Seq<u8>> {
    match o {
        Some(s) => Some(encode_utf8(s@)),
        None => None,
    }
}

impl View for Error {
    type V = ErrorV;

    open spec fn view(&self) -> ErrorV {
        ErrorV {
            error: encode_utf8(self.error@),
            error_message: encode_utf8(self.error_message@),
            cause: opt_bytes(self.cause),
        }
    }
}

impl View for Profile {
    type V = ProfileV;

    open spec fn view(&self) -> ProfileV {
        ProfileV {
            id: encode_utf8(self.id@),
            name: encode_utf8(self.name@),
            legacy: self.legacy,
        }
    }
}

impl View for Property {
    type V = PropertyV;

    open spec fn view(&self) -> PropertyV {
        PropertyV { name: encode_utf8(self.name@), value: encode_utf8(self.value@) }
    }
}

/// The views of a sequence of properties, element by element.
pub open spec fn properties_view(v: Seq<Property>) -> Seq<PropertyV> {
    Seq::new(
        v.len(),
        |i: int|
            if 0 <= i < v.len() {
                v[i]@
            } else {
                PropertyV { name: Seq::empty(), value: Seq::empty() }
            },
    )
}

impl View for User {
    type V = UserV;

    open spec fn view(&self) -> UserV {
        UserV { id: encode_utf8(self.id@), properties: properties_view(self.properties@) }
    }
}

/// The views of a sequence of profiles, element by element.
pub open spec fn profiles_view(v: Seq<Profile>) -> Seq<ProfileV> {
    Seq::new(
        v.len(),
        |i: int|
            if 0 <= i < v.len() {
                v[i]@
            } else {
                ProfileV { id: Seq::empty(), name: Seq::empty(), legacy: None }
            },
    )
}

/// The view of an optional profile.
pub open spec fn opt_profile_view(o: Option<Profile>) -> Option<ProfileV> {
    match o {
        Some(p) => Some(p@),
        None => None,
    }
}

/// The view of an optional user.
pub open spec fn opt_user_view(o: Option<User>) -> Option<UserV> {
    match o {
        Some(u) => Some(u@),
        None => None,
    }
}

impl View for Authenticate {
    type V = AuthenticateV;

    open spec fn view(&self) -> AuthenticateV {
        AuthenticateV {
            access_token: encode_utf8(self.access_token@),
            client_token: encode_utf8(self.client_token@),
            available_profiles: profiles_view(self.available_profiles@),
            selected_profile: opt_profile_view(self.selected_profile),
            user: opt_user_view(self.user),
        }
    }
}

impl View for Refresh {
    type V = RefreshV;

    open spec fn view(&self) -> RefreshV {
        RefreshV {
            access_token: encode_utf8(self.access_token@),
            client_token: encode_utf8(self.client_token@),
            selected_profile: self.selected_profile@,
            user: opt_user_view(self.user),
        }
    }
}

impl Profile {
    /// A profile without the legacy flag; the flag stays absent on the
    /// wire.
    pub fn new(id: String, name: String) -> (r: Profile)
        ensures
            r.id == id,
            r.name == name,
            r.legacy is None,
    {
        Profile { id, name, legacy: None }
    }

    /// A profile explicitly flagged legacy.
    pub fn new_legacy(id: String, name: String) -> (r: Profile)
        ensures
            r.id == id,
            r.name == name,
            r.legacy == Some(true),
    {
        Profile { id, name, legacy: Some(true) }
    }
}

// Specification decoders over parsed JSON values.

/// First member with the given key, if any; later duplicates are
/// ignored.
pub open spec fn obj_get(m: Seq<(Seq<u8>, JsonVal)>, key: Seq<u8>) -> Option<JsonVal>
    decreases m.len(),
{
    if m.len() == 0 {
        None
    } else if m[0].0 == key {
        Some(m[0].1)
    } else {
        obj_get(m.drop_first(), key)
    }
}

/// A mandatory string member: present, a string, and valid UTF-8.
pub open spec fn req_str(m: Seq<(Seq<u8>, JsonVal)>, key: Seq<u8>) -> Option<Seq<u8>> {
    match obj_get(m, key) {
        Some(JsonVal::Str(s)) => if valid_utf8(s) {
            Some(s)
        } else {
            None
        },
        _ => None,
    }
}

/// An optional string member: absent or null decode to `None`.
pub open spec fn opt_str(m: Seq<(Seq<u8>, JsonVal)>, key: Seq<u8>) -> Option<Option<Seq<u8>>> {
    match obj_get(m, key) {
        None => Some(None),
        Some(JsonVal::Null) => Some(None),
        Some(JsonVal::Str(s)) => if valid_utf8(s) {
            Some(Some(s))
        } else {
            None
        },
        Some(_) => None,
    }
}

/// An optional boolean member: absent or null decode to `None`.
pub open spec fn opt_bool(m: Seq<(Seq<u8>, JsonVal)>, key: Seq<u8>) -> Option<Option<bool>> {
    match obj_get(m, key) {
        None => Some(None),
        Some(JsonVal::Null) => Some(None),
        Some(JsonVal::Bool(b)) => Some(Some(b)),
        Some(_) => None,
    }
}

pub open spec fn spec_decode_profile(v: JsonVal) -> Option<ProfileV> {
    match v {
        JsonVal::Obj(m) => match (req_str(m, "id".spec_bytes()), req_str(m, "name".spec_bytes()), opt_bool(m, "legacy".spec_bytes())) {
            (Some(id), Some(name), Some(legacy)) => Some(ProfileV { id, name, legacy }),
            _ => None,
        },
        _ => None,
    }
}

/// Decode the array elements from index `i` on; all must be profiles.
pub open spec fn spec_decode_profiles(a: Seq<JsonVal>, i: int) -> Option<Seq<ProfileV>>
    decreases a.len() - i,
{
    if i < 0 || i >= a.len() {
        Some(Seq::empty())
    } else {
        match (spec_decode_profile(a[i]), spec_decode_profiles(a, i + 1)) {
            (Some(p), Some(rest)) => Some(seq![p] + rest),
            _ => None,
        }
    }
}

pub open spec fn spec_decode_property(v: JsonVal) -> Option<PropertyV> {
    match v {
        JsonVal::Obj(m) => match (req_str(m, "name".spec_bytes()), req_str(m, "value".spec_bytes())) {
            (Some(name), Some(value)) => Some(PropertyV { name, value }),
            _ => None,
        },
        _ => None,
    }
}

/// Decode the array elements from index `i` on; all must be properties.
pub open spec fn spec_decode_properties(a: Seq<JsonVal>, i: int) -> Option<Seq<PropertyV>>
    decreases a.len() - i,
{
    if i < 0 || i >= a.len() {
        Some(Seq::empty())
    } else {
        match (spec_decode_property(a[i]), spec_decode_properties(a, i + 1)) {
            (Some(p), Some(rest)) => Some(seq![p] + rest),
            _ => None,
        }
    }
}

pub open spec fn spec_decode_user(v: JsonVal) -> Option<UserV> {
    match v {
        JsonVal::Obj(m) => match (req_str(m, "id".spec_bytes()), obj_get(m, "properties".spec_bytes())) {
            (Some(id), Some(JsonVal::Arr(a))) => match spec_decode_properties(a, 0) {
                Some(properties) => Some(UserV { id, properties }),
                None => None,
            },
            _ => None,
        },
        _ => None,
    }
}

/// An optional profile member: absent or null decode to `None`; present
/// members must decode as profiles.
pub open spec fn opt_profile(m: Seq<(Seq<u8>, JsonVal)>, key: Seq<u8>) -> Option<
    Option<ProfileV>,
> {
    match obj_get(m, key) {
        None => Some(None),
        Some(JsonVal::Null) => Some(None),
        Some(v) => match spec_decode_profile(v) {
            Some(p) => Some(Some(p)),
            None => None,
        },
    }
}

/// An optional user member: absent or null decode to `None`.
pub open spec fn opt_user(m: Seq<(Seq<u8>, JsonVal)>, key: Seq<u8>) -> Option<Option<UserV>> {
    match obj_get(m, key) {
        None => Some(None),
        Some(JsonVal::Null) => Some(None),
        Some(v) => match spec_decode_user(v) {
            Some(u) => Some(Some(u)),
            None => None,
        },
    }
}

pub open spec fn spec_decode_authenticate(v: JsonVal) -> Option<AuthenticateV> {
    match v {
        JsonVal::Obj(m) => match (
            req_str(m, "accessToken".spec_bytes()),
            req_str(m, "clientToken".spec_bytes()),
            obj_get(m, "availableProfiles".spec_bytes()),
        ) {
            (Some(access_token), Some(client_token), Some(JsonVal::Arr(a))) => match (
                spec_decode_profiles(a, 0),
                opt_profile(m, "selectedProfile".spec_bytes()),
                opt_user(m, "user".spec_bytes()),
            ) {
                (Some(available_profiles), Some(selected_profile), Some(user)) => Some(
                    AuthenticateV {
                        access_token,
                        client_token,
                        available_profiles,
                        selected_profile,
                        user,
                    },
                ),
                _ => None,
            },
            _ => None,
        },
        _ => None,
    }
}

pub open spec fn spec_decode_refresh(v: JsonVal) -> Option<RefreshV> {
    match v {
        JsonVal::Obj(m) => match (
            req_str(m, "accessToken".spec_bytes()),
            req_str(m, "clientToken".spec_bytes()),
            obj_get(m, "selectedProfile".spec_bytes()),
        ) {
            (Some(access_token), Some(client_token), Some(p)) => match (
                spec_decode_profile(p),
                opt_user(m, "user".spec_bytes()),
            ) {
                (Some(selected_profile), Some(user)) => Some(
                    RefreshV { access_token, client_token, selected_profile, user },
                ),
                _ => None,
            },
            _ => None,
        },
        _ => None,
    }
}

pub open spec fn spec_decode_error(v: JsonVal) -> Option<ErrorV> {
    match v {
        JsonVal::Obj(m) => match (
            req_str(m, "error".spec_bytes()),
            req_str(m, "errorMessage".spec_bytes()),
            opt_str(m, "cause".spec_bytes()),
        ) {
            (Some(error), Some(error_message), Some(cause)) => Some(
                ErrorV { error, error_message, cause },
            ),
            _ => None,
        },
        _ => None,
    }
}

// Executable decoders, each the exact image of its specification twin.

/// Relies on `String::from_utf8`: it succeeds exactly on valid UTF-8
/// input and returns the string holding those bytes.
#[verifier::external_body]
fn string_from_bytes(v: &[u8]) -> (r: Option<String>)
    ensures
        r is Some <==> valid_utf8(v@),
        r matches Some(s) ==> encode_utf8(s@) == v@,
{
    match String::from_utf8(v.to_vec()) {
        Ok(s) => Some(s),
        Err(_) => None,
    }
}

fn bytes_eq(a: &[u8], b: &[u8]) -> (r: bool)
    ensures
        r == (a@ == b@),
{
    if a.len() != b.len() {
        return false;
    }
    let mut i: usize = 0;
    while i < a.len()
        invariant
            a@.len() == b@.len(),
            i <= a@.len(),
            forall|x: int| 0 <= x < i ==> a@[x] == b@[x],
        decreases a@.len() - i,
    {
        if a[i] != b[i] {
            return false;
        }
        i += 1;
    }
    proof {
        assert(a@ =~= b@);
    }
    true
}

fn get_field<'a>(m: &'a Vec<(Vec<u8>, Json)>, key: &str) -> (r: Option<&'a Json>)
    ensures
        match obj_get(obj_view(m@), key.spec_bytes()) {
            Some(v) => r matches Some(j) && j@ == v,
            None => r is None,
        },
{
    let kb = key.as_bytes();
    let mut i: usize = 0;
    proof {
        assert(obj_view(m@).skip(0) =~= obj_view(m@));
    }
    while i < m.len()
        invariant
            i <= m@.len(),
            kb@ == key.spec_bytes(),
            obj_get(obj_view(m@), key.spec_bytes()) == obj_get(
                obj_view(m@).skip(i as int),
                key.spec_bytes(),
            ),
        decreases m@.len() - i,
    {
        let entry = &m[i];
        proof {
            let sk = obj_view(m@).skip(i as int);
            assert(sk[0] == obj_view(m@)[i as int]);
        }
        if bytes_eq(entry.0.as_slice(), kb) {
            return Some(&entry.1);
        }
        proof {
            let sk = obj_view(m@).skip(i as int);
            assert(sk.drop_first() =~= obj_view(m@).skip(i as int + 1));
        }
        i += 1;
    }
    proof {
        assert(obj_view(m@).skip(i as int) =~= Seq::<(Seq<u8>, JsonVal)>::empty());
    }
    None
}

fn get_str_field(m: &Vec<(Vec<u8>, Json)>, key: &str) -> (r: Option<String>)
    ensures
        match req_str(obj_view(m@), key.spec_bytes()) {
            Some(s) => r matches Some(rs) && encode_utf8(rs@) == s,
            None => r is None,
        },
{
    match get_field(m, key) {
        Some(j) => match j {
            Json::Str(s) => string_from_bytes(s.as_slice()),
            _ => None,
        },
        None => None,
    }
}

fn get_opt_str_field(m: &Vec<(Vec<u8>, Json)>, key: &str) -> (r: Option<Option<String>>)
    ensures
        match opt_str(obj_view(m@), key.spec_bytes()) {
            Some(o) => r matches Some(ro) && opt_bytes(ro) == o,
            None => r is None,
        },
{
    match get_field(m, key) {
        None => Some(None),
        Some(j) => match j {
            Json::Null => Some(None),
            Json::Str(s) => match string_from_bytes(s.as_slice()) {
                Some(rs) => Some(Some(rs)),
                None => None,
            },
            _ => None,
        },
    }
}

fn get_opt_bool_field(m: &Vec<(Vec<u8>, Json)>, key: &str) -> (r: Option<Option<bool>>)
    ensures
        match opt_bool(obj_view(m@), key.spec_bytes()) {
            Some(o) => r == Some(o),
            None => r is None,
        },
{
    match get_field(m, key) {
        None => Some(None),
        Some(j) => match j {
            Json::Null => Some(None),
            Json::Bool(b) => Some(Some(*b)),
            _ => None,
        },
    }
}

/// Decode a profile out of a parsed JSON value.
pub fn decode_profile(v: &Json) -> (r: Option<Profile>)
    ensures
        match spec_decode_profile(v@) {
            Some(p) => r matches Some(rp) && rp@ == p,
            None => r is None,
        },
{
    match v {
        Json::Obj(m) => {
            let id = match get_str_field(m, "id") {
                Some(s) => s,
                None => {
                    return None;
                },
            };
            let name = match get_str_field(m, "name") {
                Some(s) => s,
                None => {
                    return None;
                },
            };
            let legacy = match get_opt_bool_field(m, "legacy") {
                Some(b) => b,
                None => {
                    return None;
                },
            };
            Some(Profile { id, name, legacy })
        },
        _ => None,
    }
}

fn decode_profiles_at(a: &Vec<Json>, i: usize) -> (r: Option<Vec<Profile>>)
    requires
        i <= a@.len(),
    ensures
        match spec_decode_profiles(arr_view(a@), i as int) {
            Some(ps) => r matches Some(rv) && profiles_view(rv@) == ps,
            None => r is None,
        },
    decreases a@.len() - i,
{
    if i >= a.len() {
        let out: Vec<Profile> = Vec::new();
        proof {
            assert(profiles_view(out@) =~= Seq::<ProfileV>::empty());
        }
        Some(out)
    } else {
        let p = match decode_profile(&a[i]) {
            Some(p) => p,
            None => {
                return None;
            },
        };
        match decode_profiles_at(a, i + 1) {
            Some(rest) => {
                let mut out: Vec<Profile> = Vec::new();
                out.push(p);
                let mut rest = rest;
                out.append(&mut rest);
                proof {
                    let ps = spec_decode_profiles(arr_view(a@), i as int)->Some_0;
                    assert(profiles_view(out@) =~= ps) by {
                        let tail = spec_decode_profiles(arr_view(a@), i as int + 1)->Some_0;
                        assert(forall|x: int|
                            0 <= x < tail.len() ==> tail[x] == profiles_view(out@)[x + 1]);
                    };
                }
                Some(out)
            },
            None => None,
        }
    }
}

/// Decode a property out of a parsed JSON value.
pub fn decode_property(v: &Json) -> (r: Option<Property>)
    ensures
        match spec_decode_property(v@) {
            Some(p) => r matches Some(rp) && rp@ == p,
            None => r is None,
        },
{
    match v {
        Json::Obj(m) => {
            let name = match get_str_field(m, "name") {
                Some(s) => s,
                None => {
                    return None;
                },
            };
            let value = match get_str_field(m, "value") {
                Some(s) => s,
                None => {
                    return None;
                },
            };
            Some(Property { name, value })
        },
        _ => None,
    }
}

fn decode_properties_at(a: &Vec<Json>, i: usize) -> (r: Option<Vec<Property>>)
    requires
        i <= a@.len(),
    ensures
        match spec_decode_properties(arr_view(a@), i as int) {
            Some(ps) => r matches Some(rv) && properties_view(rv@) == ps,
            None => r is None,
        },
    decreases a@.len() - i,
{
    if i >= a.len() {
        let out: Vec<Property> = Vec::new();
        proof {
            assert(properties_view(out@) =~= Seq::<PropertyV>::empty());
        }
        Some(out)
    } else {
        let p = match decode_property(&a[i]) {
            Some(p) => p,
            None => {
                return None;
            },
        };
        match decode_properties_at(a, i + 1) {
            Some(rest) => {
                let mut out: Vec<Property> = Vec::new();
                out.push(p);
                let mut rest = rest;
                out.append(&mut rest);
                proof {
                    let ps = spec_decode_properties(arr_view(a@), i as int)->Some_0;
                    assert(properties_view(out@) =~= ps) by {
                        let tail = spec_decode_properties(arr_view(a@), i as int + 1)->Some_0;
                        assert(forall|x: int|
                            0 <= x < tail.len() ==> tail[x] == properties_view(out@)[x + 1]);
                    };
                }
                Some(out)
            },
            None => None,
        }
    }
}

/// Decode a user record out of a parsed JSON value.
pub fn decode_user(v: &Json) -> (r: Option<User>)
    ensures
        match spec_decode_user(v@) {
            Some(u) => r matches Some(ru) && ru@ == u,
            None => r is None,
        },
{
    match v {
        Json::Obj(m) => {
            let id = match get_str_field(m, "id") {
                Some(s) => s,
                None => {
                    return None;
                },
            };
            match get_field(m, "properties") {
                Some(j) => match j {
                    Json::Arr(a) => match decode_properties_at(a, 0) {
                        Some(properties) => Some(User { id, properties }),
                        None => None,
                    },
                    _ => None,
                },
                None => None,
            }
        },
        _ => None,
    }
}

fn get_opt_profile_field(m: &Vec<(Vec<u8>, Json)>, key: &str) -> (r: Option<Option<Profile>>)
    ensures
        match opt_profile(obj_view(m@), key.spec_bytes()) {
            Some(o) => r matches Some(ro) && opt_profile_view(ro) == o,
            None => r is None,
        },
{
    match get_field(m, key) {
        None => Some(None),
        Some(j) => match j {
            Json::Null => Some(None),
            _ => match decode_profile(j) {
                Some(p) => Some(Some(p)),
                None => None,
            },
        },
    }
}

fn get_opt_user_field(m: &Vec<(Vec<u8>, Json)>, key: &str) -> (r: Option<Option<User>>)
    ensures
        match opt_user(obj_view(m@), key.spec_bytes()) {
            Some(o) => r matches Some(ro) && opt_user_view(ro) == o,
            None => r is None,
        },
{
    match get_field(m, key) {
        None => Some(None),
        Some(j) => match j {
            Json::Null => Some(None),
            _ => match decode_user(j) {
                Some(u) => Some(Some(u)),
                None => None,
            },
        },
    }
}

/// Decode an authenticate result out of a parsed JSON value.
pub fn decode_authenticate(v: &Json) -> (r: Option<Authenticate>)
    ensures
        match spec_decode_authenticate(v@) {
            Some(a) => r matches Some(ra) && ra@ == a,
            None => r is None,
        },
{
    match v {
        Json::Obj(m) => {
            let access_token = match get_str_field(m, "accessToken") {
                Some(s) => s,
                None => {
                    return None;
                },
            };
            let client_token = match get_str_field(m, "clientToken") {
                Some(s) => s,
                None => {
                    return None;
                },
            };
            let available_profiles = match get_field(m, "availableProfiles") {
                Some(j) => match j {
                    Json::Arr(a) => match decode_profiles_at(a, 0) {
                        Some(ps) => ps,
                        None => {
                            return None;
                        },
                    },
                    _ => {
                        return None;
                    },
                },
                None => {
                    return None;
                },
            };
            let selected_profile = match get_opt_profile_field(m, "selectedProfile") {
                Some(o) => o,
                None => {
                    return None;
                },
            };
            let user = match get_opt_user_field(m, "user") {
                Some(o) => o,
                None => {
                    return None;
                },
            };
            Some(
                Authenticate {
                    access_token,
                    client_token,
                    available_profiles,
                    selected_profile,
                    user,
                },
            )
        },
        _ => None,
    }
}

/// Decode a refresh result out of a parsed JSON value; the selected
/// profile is mandatory here.
pub fn decode_refresh(v: &Json) -> (r: Option<Refresh>)
    ensures
        match spec_decode_refresh(v@) {
            Some(a) => r matches Some(ra) && ra@ == a,
            None => r is None,
        },
{
    match v {
        Json::Obj(m) => {
            let access_token = match get_str_field(m, "accessToken") {
                Some(s) => s,
                None => {
                    return None;
                },
            };
            let client_token = match get_str_field(m, "clientToken") {
                Some(s) => s,
                None => {
                    return None;
                },
            };
            let selected_profile = match get_field(m, "selectedProfile") {
                Some(j) => match decode_profile(j) {
                    Some(p) => p,
                    None => {
                        return None;
                    },
                },
                None => {
                    return None;
                },
            };
            let user = match get_opt_user_field(m, "user") {
                Some(o) => o,
                None => {
                    return None;
                },
            };
            Some(Refresh { access_token, client_token, selected_profile, user })
        },
        _ => None,
    }
}

/// Decode the service's error envelope out of a parsed JSON value.
pub fn decode_error(v: &Json) -> (r: Option<Error>)
    ensures
        match spec_decode_error(v@) {
            Some(e) => r matches Some(re) && re@ == e,
            None => r is None,
        },
{
    match v {
        Json::Obj(m) => {
            let error = match get_str_field(m, "error") {
                Some(s) => s,
                None => {
                    return None;
                },
            };
            let error_message = match get_str_field(m, "errorMessage") {
                Some(s) => s,
                None => {
                    return None;
                },
            };
            let cause = match get_opt_str_field(m, "cause") {
                Some(o) => o,
                None => {
                    return None;
                },
            };
            Some(Error { error, error_message, cause })
        },
        _ => None,
    }
}

} // verus!
