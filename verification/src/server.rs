//! The session data model and the four session operations — create, refresh,
//! get, delete — as pure computations: building the request body, and mapping
//! an HTTP status code and response body to the two-variant outcome. The
//! caller performs the HTTP exchange and hands the status and body text here.

use vstd::prelude::*;
use vstd::string::*;

use crate::json::{
    arr_view, jview, obj_find, obj_get, obj_view, parse_json, print_json, spec_parse_json,
    write_json, Json, JsonView,
};
use crate::{Bearer, NoView, Response, ResponseView, DID, NO};

verus! {

/// The request payload of the create-session operation.
#[derive(Debug, PartialEq)]
pub struct CreateSession {
    pub identifier: String,
    pub password: String,
    pub auth_factor_token: Option<String>,
}

/// An entry of a DID document's service list.
#[derive(Debug, PartialEq)]
pub struct Service {
    pub id: String,
    pub service_endpoint: String,
    pub service_type: String,
}

/// An entry of a DID document's verification-method list.
#[derive(Debug, PartialEq)]
pub struct VerificationMethod {
    pub controller: String,
    pub id: String,
    pub public_key_multibase: String,
    pub verif_type: String,
}

/// A DID document: the service-discovery part of a session.
#[derive(Debug, PartialEq)]
pub struct DidDoc {
    pub context: Vec<String>,
    pub also_known_as: Vec<String>,
    pub id: String,
    pub service: Vec<Service>,
    pub verification_method: Vec<VerificationMethod>,
}

/// An authenticated session as the service describes it.
#[derive(Debug, PartialEq)]
pub struct Session {
    pub access_jwt: Bearer,
    pub refresh_jwt: Bearer,
    pub handle: crate::Handle,
    pub did: DID,
    pub did_doc: DidDoc,
    pub email: String,
    pub email_confirmed: bool,
    pub email_auth_factor: bool,
    pub active: bool,
    pub status: Option<String>,
}

#[verifier::ext_equal]
pub ghost struct CreateSessionView {
    pub identifier: Seq<char>,
    pub password: Seq<char>,
    pub auth_factor_token: Option<Seq<char>>,
}

#[verifier::ext_equal]
pub ghost struct ServiceView {
    pub id: Seq<char>,
    pub service_endpoint: Seq<char>,
    pub service_type: Seq<char>,
}

#[verifier::ext_equal]
pub ghost struct VerificationMethodView {
    pub controller: Seq<char>,
    pub id: Seq<char>,
    pub public_key_multibase: Seq<char>,
    pub verif_type: Seq<char>,
}

#[verifier::ext_equal]
pub ghost struct DidDocView {
    pub context: Seq<Seq<char>>,
    pub also_known_as: Seq<Seq<char>>,
    pub id: Seq<char>,
    pub service: Seq<ServiceView>,
    pub verification_method: Seq<VerificationMethodView>,
}

#[verifier::ext_equal]
pub ghost struct SessionView {
    pub access_jwt: Seq<char>,
    pub refresh_jwt: Seq<char>,
    pub handle: Seq<char>,
    pub did: Seq<char>,
    pub did_doc: DidDocView,
    pub email: Seq<char>,
    pub email_confirmed: bool,
    pub email_auth_factor: bool,
    pub active: bool,
    pub status: Option<Seq<char>>,
}

/// The image of an optional string.
pub open spec fn ostr_view(o: Option<String>) -> Option<Seq<char>> {
    match o {
        Some(s) => Some(s@),
        None => None,
    }
}

impl View for CreateSession {
    type V = CreateSessionView;

    open spec fn view(&self) -> CreateSessionView {
        CreateSessionView {
            identifier: self.identifier@,
            password: self.password@,
            auth_factor_token: ostr_view(self.auth_factor_token),
        }
    }
}

impl View for Service {
    type V = ServiceView;

    open spec fn view(&self) -> ServiceView {
        ServiceView {
            id: self.id@,
            service_endpoint: self.service_endpoint@,
            service_type: self.service_type@,
        }
    }
}

impl View for VerificationMethod {
    type V = VerificationMethodView;

    open spec fn view(&self) -> VerificationMethodView {
        VerificationMethodView {
            controller: self.controller@,
            id: self.id@,
            public_key_multibase: self.public_key_multibase@,
            verif_type: self.verif_type@,
        }
    }
}

impl View for DidDoc {
    type V = DidDocView;

    open spec fn view(&self) -> DidDocView {
        DidDocView {
            context: self.context.deep_view(),
            also_known_as: self.also_known_as.deep_view(),
            id: self.id@,
            service: self.service@.map_values(|s: Service| s@),
            verification_method: self.verification_method@.map_values(
                |m: VerificationMethod| m@,
            ),
        }
    }
}

impl View for Session {
    type V = SessionView;

    open spec fn view(&self) -> SessionView {
        SessionView {
            access_jwt: self.access_jwt@,
            refresh_jwt: self.refresh_jwt@,
            handle: self.handle@,
            did: self.did@,
            did_doc: self.did_doc@,
            email: self.email@,
            email_confirmed: self.email_confirmed,
            email_auth_factor: self.email_auth_factor,
            active: self.active,
            status: ostr_view(self.status),
        }
    }
}

impl CreateSession {
    pub fn new(id: String, pass: String, auth_factor: Option<String>) -> (r: Self)
        ensures
            r@.identifier == id@,
            r@.password == pass@,
            r@.auth_factor_token == ostr_view(auth_factor),
    {
        CreateSession { identifier: id, password: pass, auth_factor_token: auth_factor }
    }
}

impl Service {
    pub fn new(id: String, service_endpoint: String, service_type: String) -> (r: Self)
        ensures
            r@.id == id@,
            r@.service_endpoint == service_endpoint@,
            r@.service_type == service_type@,
    {
        Service { id, service_endpoint, service_type }
    }
}

impl Default for Service {
    /// A service entry with every field empty.
    fn default() -> (r: Self)
        ensures
            r@ == (ServiceView {
                id: Seq::empty(),
                service_endpoint: Seq::empty(),
                service_type: Seq::empty(),
            }),
    {
        Service { id: String::new(), service_endpoint: String::new(), service_type: String::new() }
    }
}

impl VerificationMethod {
    pub fn new(
        controller: String,
        id: String,
        public_key_multibase: String,
        verif_type: String,
    ) -> (r: Self)
        ensures
            r@.controller == controller@,
            r@.id == id@,
            r@.public_key_multibase == public_key_multibase@,
            r@.verif_type == verif_type@,
    {
        VerificationMethod { controller, id, public_key_multibase, verif_type }
    }
}

impl Default for VerificationMethod {
    /// A verification method with every field empty.
    fn default() -> (r: Self)
        ensures
            r@ == (VerificationMethodView {
                controller: Seq::empty(),
                id: Seq::empty(),
                public_key_multibase: Seq::empty(),
                verif_type: Seq::empty(),
            }),
    {
        VerificationMethod {
            controller: String::new(),
            id: String::new(),
            public_key_multibase: String::new(),
            verif_type: String::new(),
        }
    }
}

impl DidDoc {
    pub fn new(
        context: Vec<String>,
        also_known_as: Vec<String>,
        id: String,
        service: Vec<Service>,
        verification_method: Vec<VerificationMethod>,
    ) -> (r: Self)
        ensures
            r@.context == context.deep_view(),
            r@.also_known_as == also_known_as.deep_view(),
            r@.id == id@,
            r@.service == service@.map_values(|s: Service| s@),
            r@.verification_method == verification_method@.map_values(
                |m: VerificationMethod| m@,
            ),
    {
        DidDoc { context, also_known_as, id, service, verification_method }
    }
}

/// The image of an empty DID document.
pub open spec fn empty_did_doc() -> DidDocView {
    DidDocView {
        context: Seq::empty(),
        also_known_as: Seq::empty(),
        id: Seq::empty(),
        service: Seq::empty(),
        verification_method: Seq::empty(),
    }
}

impl Default for DidDoc {
    /// A DID document with every list and string empty.
    fn default() -> (r: Self)
        ensures
            r@ == empty_did_doc(),
    {
        let r = DidDoc {
            context: Vec::new(),
            also_known_as: Vec::new(),
            id: String::new(),
            service: Vec::new(),
            verification_method: Vec::new(),
        };
        proof {
            assert(r@ =~= empty_did_doc());
        }
        r
    }
}

/// The image of an empty session: every string empty, every flag false, no
/// status.
pub open spec fn empty_session() -> SessionView {
    SessionView {
        access_jwt: Seq::empty(),
        refresh_jwt: Seq::empty(),
        handle: Seq::empty(),
        did: Seq::empty(),
        did_doc: empty_did_doc(),
        email: Seq::empty(),
        email_confirmed: false,
        email_auth_factor: false,
        active: false,
        status: None,
    }
}

impl Session {
    pub fn new(
        access_jwt: Bearer,
        refresh_jwt: Bearer,
        handle: crate::Handle,
        did: DID,
        did_doc: DidDoc,
        email: String,
        email_confirmed: bool,
        email_auth_factor: bool,
        active: bool,
        status: Option<String>,
    ) -> (r: Self)
        ensures
            r@.access_jwt == access_jwt@,
            r@.refresh_jwt == refresh_jwt@,
            r@.handle == handle@,
            r@.did == did@,
            r@.did_doc == did_doc@,
            r@.email == email@,
            r@.email_confirmed == email_confirmed,
            r@.email_auth_factor == email_auth_factor,
            r@.active == active,
            r@.status == ostr_view(status),
    {
        Session {
            access_jwt,
            refresh_jwt,
            handle,
            did,
            did_doc,
            email,
            email_confirmed,
            email_auth_factor,
            active,
            status,
        }
    }

    /// The session after a successful refresh: tokens, handle, DID, DID
    /// document, active flag and status come from the refreshed payload, while
    /// the email fields deliberately stay as they were — the refresh operation
    /// never updates them.
    pub fn merge_refresh(&self, fresh: Session) -> (r: Session)
        ensures
            r@.access_jwt == fresh@.access_jwt,
            r@.refresh_jwt == fresh@.refresh_jwt,
            r@.handle == fresh@.handle,
            r@.did == fresh@.did,
            r@.did_doc == fresh@.did_doc,
            r@.active == fresh@.active,
            r@.status == fresh@.status,
            r@.email == self@.email,
            r@.email_confirmed == self@.email_confirmed,
            r@.email_auth_factor == self@.email_auth_factor,
    {
        Session {
            access_jwt: fresh.access_jwt,
            refresh_jwt: fresh.refresh_jwt,
            handle: fresh.handle,
            did: fresh.did,
            did_doc: fresh.did_doc,
            email: self.email.clone(),
            email_confirmed: self.email_confirmed,
            email_auth_factor: self.email_auth_factor,
            active: fresh.active,
            status: fresh.status,
        }
    }
}

impl Default for Session {
    /// The session a caller holds before any network call: everything empty.
    fn default() -> (r: Self)
        ensures
            r@ == empty_session(),
    {
        let r = Session {
            access_jwt: String::new(),
            refresh_jwt: String::new(),
            handle: String::new(),
            did: String::new(),
            did_doc: DidDoc::default(),
            email: String::new(),
            email_confirmed: false,
            email_auth_factor: false,
            active: false,
            status: None,
        };
        proof {
            assert(r@ =~= empty_session());
        }
        r
    }
}

/// The string under a present member; empty when absent or not a string.
pub open spec fn jstr(o: Option<JsonView>) -> Seq<char> {
    match o {
        Some(JsonView::Str(t)) => t,
        _ => Seq::empty(),
    }
}

/// The boolean under a present member; false when absent or not a boolean.
pub open spec fn jbool(o: Option<JsonView>) -> bool {
    match o {
        Some(JsonView::Bool(b)) => b,
        _ => false,
    }
}

/// The string under a present member; absent when missing, null or not a
/// string.
pub open spec fn jostr(o: Option<JsonView>) -> Option<Seq<char>> {
    match o {
        Some(JsonView::Str(t)) => Some(t),
        _ => None,
    }
}

/// The elements under a present member; empty when absent or not an array.
pub open spec fn jarr(o: Option<JsonView>) -> Seq<JsonView> {
    match o {
        Some(JsonView::Arr(a)) => a,
        _ => Seq::empty(),
    }
}

/// The members under a present member; empty when absent or not an object.
pub open spec fn jobj(o: Option<JsonView>) -> Seq<(Seq<char>, JsonView)> {
    match o {
        Some(JsonView::Obj(m)) => m,
        _ => Seq::empty(),
    }
}

/// A value as a string; empty when it is not one.
pub open spec fn jstr_v(v: JsonView) -> Seq<char> {
    match v {
        JsonView::Str(t) => t,
        _ => Seq::empty(),
    }
}

/// A value's members; empty when it is not an object.
pub open spec fn jobj_v(v: JsonView) -> Seq<(Seq<char>, JsonView)> {
    match v {
        JsonView::Obj(m) => m,
        _ => Seq::empty(),
    }
}

/// A service entry decoded from an object's members; absent or mistyped
/// members default to the empty string.
pub open spec fn service_of(m: Seq<(Seq<char>, JsonView)>) -> ServiceView {
    ServiceView {
        id: jstr(obj_get(m, "id"@)),
        service_endpoint: jstr(obj_get(m, "serviceEndpoint"@)),
        service_type: jstr(obj_get(m, "type"@)),
    }
}

/// A verification method decoded from an object's members.
pub open spec fn vm_of(m: Seq<(Seq<char>, JsonView)>) -> VerificationMethodView {
    VerificationMethodView {
        controller: jstr(obj_get(m, "controller"@)),
        id: jstr(obj_get(m, "id"@)),
        public_key_multibase: jstr(obj_get(m, "publicKeyMultibase"@)),
        verif_type: jstr(obj_get(m, "type"@)),
    }
}

/// An array of strings, each non-string element read as empty.
pub open spec fn strings_of(a: Seq<JsonView>) -> Seq<Seq<char>> {
    a.map_values(|v: JsonView| jstr_v(v))
}

/// An array of service entries, each non-object element read as empty.
pub open spec fn services_of(a: Seq<JsonView>) -> Seq<ServiceView> {
    a.map_values(|v: JsonView| service_of(jobj_v(v)))
}

/// An array of verification methods, each non-object element read as empty.
pub open spec fn vms_of(a: Seq<JsonView>) -> Seq<VerificationMethodView> {
    a.map_values(|v: JsonView| vm_of(jobj_v(v)))
}

/// A DID document decoded from an object's members.
pub open spec fn did_doc_of(m: Seq<(Seq<char>, JsonView)>) -> DidDocView {
    DidDocView {
        context: strings_of(jarr(obj_get(m, "@context"@))),
        also_known_as: strings_of(jarr(obj_get(m, "alsoKnownAs"@))),
        id: jstr(obj_get(m, "id"@)),
        service: services_of(jarr(obj_get(m, "service"@))),
        verification_method: vms_of(jarr(obj_get(m, "verificationMethod"@))),
    }
}

/// A session decoded from an object's members: every absent or mistyped
/// member falls back to its default, as the schema asks.
pub open spec fn session_of(m: Seq<(Seq<char>, JsonView)>) -> SessionView {
    SessionView {
        access_jwt: jstr(obj_get(m, "accessJwt"@)),
        refresh_jwt: jstr(obj_get(m, "refreshJwt"@)),
        handle: jstr(obj_get(m, "handle"@)),
        did: jstr(obj_get(m, "did"@)),
        did_doc: did_doc_of(jobj(obj_get(m, "didDoc"@))),
        email: jstr(obj_get(m, "email"@)),
        email_confirmed: jbool(obj_get(m, "emailConfirmed"@)),
        email_auth_factor: jbool(obj_get(m, "emailAuthFactor"@)),
        active: jbool(obj_get(m, "active"@)),
        status: jostr(obj_get(m, "status"@)),
    }
}

/// What decoding a session body yields: any JSON object succeeds — missing
/// members only mean defaults — while any other text fails.
pub open spec fn spec_decode_session(t: Seq<char>) -> Option<SessionView> {
    match spec_parse_json(t) {
        Some(JsonView::Obj(m)) => Some(session_of(m)),
        _ => None,
    }
}

/// An error payload decoded from an object's members: both `error` and
/// `message` must be present as strings.
pub open spec fn error_of(m: Seq<(Seq<char>, JsonView)>) -> Option<NoView> {
    if obj_get(m, "error"@) matches Some(JsonView::Str(_)) && obj_get(m, "message"@) matches Some(
        JsonView::Str(_),
    ) {
        Some(NoView { error: jstr(obj_get(m, "error"@)), message: jstr(obj_get(m, "message"@)) })
    } else {
        None
    }
}

/// What decoding an error body yields.
pub open spec fn spec_decode_error(t: Seq<char>) -> Option<NoView> {
    match spec_parse_json(t) {
        Some(JsonView::Obj(m)) => error_of(m),
        _ => None,
    }
}

/// The member's string, or empty.
fn get_str(m: &Vec<(String, Json)>, key: &str) -> (r: String)
    ensures
        r@ == jstr(obj_get(obj_view(m@), key@)),
{
    match obj_find(m, key) {
        Some(i) => match &m[i].1 {
            Json::Str(t) => t.clone(),
            _ => String::new(),
        },
        None => String::new(),
    }
}

/// The member's boolean, or false.
fn get_bool(m: &Vec<(String, Json)>, key: &str) -> (r: bool)
    ensures
        r == jbool(obj_get(obj_view(m@), key@)),
{
    match obj_find(m, key) {
        Some(i) => match &m[i].1 {
            Json::Bool(b) => *b,
            _ => false,
        },
        None => false,
    }
}

/// The member's string, or absent.
fn get_ostr(m: &Vec<(String, Json)>, key: &str) -> (r: Option<String>)
    ensures
        ostr_view(r) == jostr(obj_get(obj_view(m@), key@)),
{
    match obj_find(m, key) {
        Some(i) => match &m[i].1 {
            Json::Str(t) => Some(t.clone()),
            _ => None,
        },
        None => None,
    }
}

/// The array's elements as strings.
fn strings_from(a: &Vec<Json>) -> (r: Vec<String>)
    ensures
        r.deep_view() == strings_of(arr_view(a@)),
{
    let mut r: Vec<String> = Vec::new();
    let mut i: usize = 0;
    while i < a.len()
        invariant
            i <= a@.len(),
            r@.len() == i,
            forall|k: int| 0 <= k < i ==> r@[k]@ == jstr_v(arr_view(a@)[k]),
        decreases a@.len() - i,
    {
        match &a[i] {
            Json::Str(t) => r.push(t.clone()),
            _ => r.push(String::new()),
        }
        i = i + 1;
    }
    proof {
        assert(r.deep_view() =~= strings_of(arr_view(a@)));
    }
    r
}

/// A service entry from an object's members.
fn service_from(m: &Vec<(String, Json)>) -> (r: Service)
    ensures
        r@ == service_of(obj_view(m@)),
{
    let r = Service {
        id: get_str(m, "id"),
        service_endpoint: get_str(m, "serviceEndpoint"),
        service_type: get_str(m, "type"),
    };
    proof {
        assert(r@ =~= service_of(obj_view(m@)));
    }
    r
}

/// The array's elements as service entries.
fn services_from(a: &Vec<Json>) -> (r: Vec<Service>)
    ensures
        r@.map_values(|s: Service| s@) == services_of(arr_view(a@)),
{
    let mut r: Vec<Service> = Vec::new();
    let mut i: usize = 0;
    while i < a.len()
        invariant
            i <= a@.len(),
            r@.len() == i,
            forall|k: int| 0 <= k < i ==> r@[k]@ == service_of(jobj_v(arr_view(a@)[k])),
        decreases a@.len() - i,
    {
        match &a[i] {
            Json::Obj(m) => {
                let s = service_from(m);
                r.push(s);
            },
            _ => r.push(Service::default()),
        }
        i = i + 1;
    }
    proof {
        assert(r@.map_values(|s: Service| s@) =~= services_of(arr_view(a@)));
    }
    r
}

/// A verification method from an object's members.
fn vm_from(m: &Vec<(String, Json)>) -> (r: VerificationMethod)
    ensures
        r@ == vm_of(obj_view(m@)),
{
    let r = VerificationMethod {
        controller: get_str(m, "controller"),
        id: get_str(m, "id"),
        public_key_multibase: get_str(m, "publicKeyMultibase"),
        verif_type: get_str(m, "type"),
    };
    proof {
        assert(r@ =~= vm_of(obj_view(m@)));
    }
    r
}

/// The array's elements as verification methods.
fn vms_from(a: &Vec<Json>) -> (r: Vec<VerificationMethod>)
    ensures
        r@.map_values(|m: VerificationMethod| m@) == vms_of(arr_view(a@)),
{
    let mut r: Vec<VerificationMethod> = Vec::new();
    let mut i: usize = 0;
    while i < a.len()
        invariant
            i <= a@.len(),
            r@.len() == i,
            forall|k: int| 0 <= k < i ==> r@[k]@ == vm_of(jobj_v(arr_view(a@)[k])),
        decreases a@.len() - i,
    {
        match &a[i] {
            Json::Obj(m) => {
                let v = vm_from(m);
                r.push(v);
            },
            _ => r.push(VerificationMethod::default()),
        }
        i = i + 1;
    }
    proof {
        assert(r@.map_values(|m: VerificationMethod| m@) =~= vms_of(arr_view(a@)));
    }
    r
}

/// The member's elements, or none.
fn get_arr<'a>(m: &'a Vec<(String, Json)>, key: &str) -> (r: Option<&'a Vec<Json>>)
    ensures
        match r {
            Some(a) => jarr(obj_get(obj_view(m@), key@)) == arr_view(a@),
            None => jarr(obj_get(obj_view(m@), key@)) == Seq::<JsonView>::empty(),
        },
{
    match obj_find(m, key) {
        Some(i) => match &m[i].1 {
            Json::Arr(a) => Some(a),
            _ => None,
        },
        None => None,
    }
}

/// A DID document from an object's members.
fn did_doc_from(m: &Vec<(String, Json)>) -> (r: DidDoc)
    ensures
        r@ == did_doc_of(obj_view(m@)),
{
    let context = match get_arr(m, "@context") {
        Some(a) => strings_from(a),
        None => Vec::new(),
    };
    let also_known_as = match get_arr(m, "alsoKnownAs") {
        Some(a) => strings_from(a),
        None => Vec::new(),
    };
    let id = get_str(m, "id");
    let service = match get_arr(m, "service") {
        Some(a) => services_from(a),
        None => Vec::new(),
    };
    let verification_method = match get_arr(m, "verificationMethod") {
        Some(a) => vms_from(a),
        None => Vec::new(),
    };
    let r = DidDoc { context, also_known_as, id, service, verification_method };
    proof {
        assert(Seq::<JsonView>::empty().map_values(|v: JsonView| jstr_v(v)) =~= Seq::<
            Seq<char>,
        >::empty());
        assert(Seq::<JsonView>::empty().map_values(|v: JsonView| service_of(jobj_v(v))) =~= Seq::<
            ServiceView,
        >::empty());
        assert(Seq::<JsonView>::empty().map_values(|v: JsonView| vm_of(jobj_v(v))) =~= Seq::<
            VerificationMethodView,
        >::empty());
        assert(r@ =~= did_doc_of(obj_view(m@)));
    }
    r
}

/// A session from an object's members.
fn session_from(m: &Vec<(String, Json)>) -> (r: Session)
    ensures
        r@ == session_of(obj_view(m@)),
{
    let did_doc = match obj_find(m, "didDoc") {
        Some(i) => match &m[i].1 {
            Json::Obj(dd) => did_doc_from(dd),
            _ => DidDoc::default(),
        },
        None => DidDoc::default(),
    };
    proof {
        assert(did_doc@ =~= did_doc_of(jobj(obj_get(obj_view(m@), "didDoc"@))));
    }
    let r = Session {
        access_jwt: get_str(m, "accessJwt"),
        refresh_jwt: get_str(m, "refreshJwt"),
        handle: get_str(m, "handle"),
        did: get_str(m, "did"),
        did_doc,
        email: get_str(m, "email"),
        email_confirmed: get_bool(m, "emailConfirmed"),
        email_auth_factor: get_bool(m, "emailAuthFactor"),
        active: get_bool(m, "active"),
        status: get_ostr(m, "status"),
    };
    proof {
        assert(r@ =~= session_of(obj_view(m@)));
    }
    r
}

/// Decodes a session body. Succeeds exactly when the body is a JSON object of
/// this library's grammar; absent or mistyped members become their defaults.
pub fn decode_session(body: &str) -> (r: Option<Session>)
    ensures
        match r {
            Some(s) => spec_decode_session(body@) == Some(s@),
            None => spec_decode_session(body@) is None,
        },
{
    match parse_json(body) {
        Some(Json::Obj(m)) => Some(session_from(&m)),
        _ => None,
    }
}

/// Decodes an error body. Succeeds exactly when the body is a JSON object
/// carrying both `error` and `message` as strings.
pub fn decode_error(body: &str) -> (r: Option<NO>)
    ensures
        match r {
            Some(no) => spec_decode_error(body@) == Some(no@),
            None => spec_decode_error(body@) is None,
        },
{
    match parse_json(body) {
        Some(Json::Obj(m)) => {
            let e = match obj_find(&m, "error") {
                Some(i) => match &m[i].1 {
                    Json::Str(t) => Some(t.clone()),
                    _ => None,
                },
                None => None,
            };
            let msg = match obj_find(&m, "message") {
                Some(i) => match &m[i].1 {
                    Json::Str(t) => Some(t.clone()),
                    _ => None,
                },
                None => None,
            };
            match (e, msg) {
                (Some(e), Some(msg)) => Some(NO::new(e, msg)),
                _ => None,
            }
        },
        _ => None,
    }
}

/// The fallback outcome for a status code the library does not recognize:
/// a failure with both error fields empty.
pub open spec fn empty_failure<V>() -> ResponseView<V> {
    ResponseView::Failure(NoView { error: Seq::empty(), message: Seq::empty() })
}

/// What the create-session operation yields from a status code and body:
/// 200 decodes a session, 400 decodes an error payload, anything else is the
/// empty failure. `None` stands for a body the decoder rejects, on which the
/// operation has no outcome.
pub open spec fn spec_create_session(status: u16, t: Seq<char>) -> Option<
    ResponseView<SessionView>,
> {
    if status == 200 {
        match spec_decode_session(t) {
            Some(sv) => Some(ResponseView::Success(sv)),
            None => None,
        }
    } else if status == 400 {
        match spec_decode_error(t) {
            Some(nv) => Some(ResponseView::Failure(nv)),
            None => None,
        }
    } else {
        Some(empty_failure())
    }
}

/// What the refresh-session operation yields: as create, with 401 also
/// carrying a decoded error payload.
pub open spec fn spec_refresh_session(status: u16, t: Seq<char>) -> Option<
    ResponseView<SessionView>,
> {
    if status == 200 {
        match spec_decode_session(t) {
            Some(sv) => Some(ResponseView::Success(sv)),
            None => None,
        }
    } else if status == 400 || status == 401 {
        match spec_decode_error(t) {
            Some(nv) => Some(ResponseView::Failure(nv)),
            None => None,
        }
    } else {
        Some(empty_failure())
    }
}

/// What the get-session operation yields: 200 decodes a session, 401 decodes
/// an error payload, anything else is the empty failure.
pub open spec fn spec_get_session(status: u16, t: Seq<char>) -> Option<
    ResponseView<SessionView>,
> {
    if status == 200 {
        match spec_decode_session(t) {
            Some(sv) => Some(ResponseView::Success(sv)),
            None => None,
        }
    } else if status == 401 {
        match spec_decode_error(t) {
            Some(nv) => Some(ResponseView::Failure(nv)),
            None => None,
        }
    } else {
        Some(empty_failure())
    }
}

/// What the delete-session operation yields: 200 succeeds with the bare
/// status code as marker, 400 and 401 decode an error payload, anything else
/// is the empty failure.
pub open spec fn spec_delete_session(status: u16, t: Seq<char>) -> Option<ResponseView<u16>> {
    if status == 200 {
        Some(ResponseView::Success(200u16))
    } else if status == 400 || status == 401 {
        match spec_decode_error(t) {
            Some(nv) => Some(ResponseView::Failure(nv)),
            None => None,
        }
    } else {
        Some(empty_failure())
    }
}

/// Interprets a create-session response. `None` only on a 200 or 400 whose
/// body the decoder rejects.
pub fn create_session(status: u16, body: &str) -> (r: Option<Response<Session>>)
    ensures
        match r {
            Some(resp) => spec_create_session(status, body@) == Some(resp@),
            None => spec_create_session(status, body@) is None,
        },
{
    if status == 200 {
        match decode_session(body) {
            Some(s) => Some(Response::Success(s)),
            None => None,
        }
    } else if status == 400 {
        match decode_error(body) {
            Some(no) => Some(Response::Failure(no)),
            None => None,
        }
    } else {
        Some(Response::Failure(NO::default()))
    }
}

/// Interprets a refresh-session response.
pub fn refresh_session(status: u16, body: &str) -> (r: Option<Response<Session>>)
    ensures
        match r {
            Some(resp) => spec_refresh_session(status, body@) == Some(resp@),
            None => spec_refresh_session(status, body@) is None,
        },
{
    if status == 200 {
        match decode_session(body) {
            Some(s) => Some(Response::Success(s)),
            None => None,
        }
    } else if status == 400 || status == 401 {
        match decode_error(body) {
            Some(no) => Some(Response::Failure(no)),
            None => None,
        }
    } else {
        Some(Response::Failure(NO::default()))
    }
}

/// Interprets a get-session response.
pub fn get_session(status: u16, body: &str) -> (r: Option<Response<Session>>)
    ensures
        match r {
            Some(resp) => spec_get_session(status, body@) == Some(resp@),
            None => spec_get_session(status, body@) is None,
        },
{
    if status == 200 {
        match decode_session(body) {
            Some(s) => Some(Response::Success(s)),
            None => None,
        }
    } else if status == 401 {
        match decode_error(body) {
            Some(no) => Some(Response::Failure(no)),
            None => None,
        }
    } else {
        Some(Response::Failure(NO::default()))
    }
}

/// Interprets a delete-session response. Success carries the status code as a
/// marker; the session itself is left untouched by this operation.
pub fn delete_session(status: u16, body: &str) -> (r: Option<Response<u16>>)
    ensures
        match r {
            Some(resp) => spec_delete_session(status, body@) == Some(resp@),
            None => spec_delete_session(status, body@) is None,
        },
{
    if status == 200 {
        Some(Response::Success(200u16))
    } else if status == 400 || status == 401 {
        match decode_error(body) {
            Some(no) => Some(Response::Failure(no)),
            None => None,
        }
    } else {
        Some(Response::Failure(NO::default()))
    }
}

/// The refresh merge over images: tokens, identity, DID document, active flag
/// and status from the refreshed payload; email fields from the original.
pub open spec fn merge_view(orig: SessionView, fresh: SessionView) -> SessionView {
    SessionView {
        access_jwt: fresh.access_jwt,
        refresh_jwt: fresh.refresh_jwt,
        handle: fresh.handle,
        did: fresh.did,
        did_doc: fresh.did_doc,
        email: orig.email,
        email_confirmed: orig.email_confirmed,
        email_auth_factor: orig.email_auth_factor,
        active: fresh.active,
        status: fresh.status,
    }
}

/// What refreshing a held session yields: the refresh outcome, a successful
/// payload merged into the original session.
pub open spec fn spec_session_refresh(orig: SessionView, status: u16, t: Seq<char>) -> Option<
    ResponseView<SessionView>,
> {
    match spec_refresh_session(status, t) {
        Some(ResponseView::Success(fresh)) => Some(
            ResponseView::Success(merge_view(orig, fresh)),
        ),
        Some(ResponseView::Failure(nv)) => Some(ResponseView::Failure(nv)),
        None => None,
    }
}

impl Session {
    /// Interprets a refresh response against this session: a successful
    /// payload is merged, a failure passes through.
    pub fn refresh_outcome(&self, status: u16, body: &str) -> (r: Option<Response<Session>>)
        ensures
            match r {
                Some(resp) => spec_session_refresh(self@, status, body@) == Some(resp@),
                None => spec_session_refresh(self@, status, body@) is None,
            },
    {
        match refresh_session(status, body) {
            Some(Response::Success(fresh)) => Some(
                Response::Success(self.merge_refresh(fresh)),
            ),
            Some(Response::Failure(no)) => Some(Response::Failure(no)),
            None => None,
        }
    }
}

/// The wire image of a service entry.
pub open spec fn service_jval(s: ServiceView) -> JsonView {
    JsonView::Obj(
        seq![
            ("id"@, JsonView::Str(s.id)),
            ("serviceEndpoint"@, JsonView::Str(s.service_endpoint)),
            ("type"@, JsonView::Str(s.service_type)),
        ],
    )
}

/// The wire image of a verification method.
pub open spec fn vm_jval(v: VerificationMethodView) -> JsonView {
    JsonView::Obj(
        seq![
            ("controller"@, JsonView::Str(v.controller)),
            ("id"@, JsonView::Str(v.id)),
            ("publicKeyMultibase"@, JsonView::Str(v.public_key_multibase)),
            ("type"@, JsonView::Str(v.verif_type)),
        ],
    )
}

/// The wire image of a DID document.
pub open spec fn did_doc_jval(d: DidDocView) -> JsonView {
    JsonView::Obj(
        seq![
            ("@context"@, JsonView::Arr(d.context.map_values(|t: Seq<char>| JsonView::Str(t)))),
            (
                "alsoKnownAs"@,
                JsonView::Arr(d.also_known_as.map_values(|t: Seq<char>| JsonView::Str(t))),
            ),
            ("id"@, JsonView::Str(d.id)),
            ("service"@, JsonView::Arr(d.service.map_values(|s: ServiceView| service_jval(s)))),
            (
                "verificationMethod"@,
                JsonView::Arr(
                    d.verification_method.map_values(|m: VerificationMethodView| vm_jval(m)),
                ),
            ),
        ],
    )
}

/// The wire image of a session, every field present, in schema order; an
/// absent status is sent as `null`.
pub open spec fn session_jval(s: SessionView) -> JsonView {
    JsonView::Obj(
        seq![
            ("accessJwt"@, JsonView::Str(s.access_jwt)),
            ("refreshJwt"@, JsonView::Str(s.refresh_jwt)),
            ("handle"@, JsonView::Str(s.handle)),
            ("did"@, JsonView::Str(s.did)),
            ("didDoc"@, did_doc_jval(s.did_doc)),
            ("email"@, JsonView::Str(s.email)),
            ("emailConfirmed"@, JsonView::Bool(s.email_confirmed)),
            ("emailAuthFactor"@, JsonView::Bool(s.email_auth_factor)),
            ("active"@, JsonView::Bool(s.active)),
            (
                "status"@,
                match s.status {
                    Some(t) => JsonView::Str(t),
                    None => JsonView::Null,
                },
            ),
        ],
    )
}

/// The wire image of the create-session request body: a missing auth-factor
/// token is sent as the empty string, never omitted.
pub open spec fn create_session_jval(c: CreateSessionView) -> JsonView {
    JsonView::Obj(
        seq![
            ("identifier"@, JsonView::Str(c.identifier)),
            ("password"@, JsonView::Str(c.password)),
            (
                "authFactorToken"@,
                JsonView::Str(
                    match c.auth_factor_token {
                        Some(t) => t,
                        None => Seq::empty(),
                    },
                ),
            ),
        ],
    )
}

/// The elements of a string list as JSON strings.
fn strings_json(v: &Vec<String>) -> (r: Vec<Json>)
    ensures
        arr_view(r@) == v.deep_view().map_values(|t: Seq<char>| JsonView::Str(t)),
{
    let mut r: Vec<Json> = Vec::new();
    let mut i: usize = 0;
    while i < v.len()
        invariant
            i <= v@.len(),
            r@.len() == i,
            forall|k: int| 0 <= k < i ==> jview(#[trigger] r@[k]) == JsonView::Str(v@[k]@),
        decreases v@.len() - i,
    {
        r.push(Json::Str(v[i].clone()));
        i = i + 1;
    }
    proof {
        assert(arr_view(r@) =~= v.deep_view().map_values(|t: Seq<char>| JsonView::Str(t)));
    }
    r
}

/// A service entry's wire value.
fn service_json(s: &Service) -> (r: Json)
    ensures
        jview(r) == service_jval(s@),
{
    let mut m: Vec<(String, Json)> = Vec::new();
    m.push((String::from_str("id"), Json::Str(s.id.clone())));
    m.push((String::from_str("serviceEndpoint"), Json::Str(s.service_endpoint.clone())));
    m.push((String::from_str("type"), Json::Str(s.service_type.clone())));
    let r = Json::Obj(m);
    proof {
        assert(obj_view(m@)[0] == ("id"@, JsonView::Str(s.id@)));
        assert(obj_view(m@)[1] == ("serviceEndpoint"@, JsonView::Str(s.service_endpoint@)));
        assert(obj_view(m@)[2] == ("type"@, JsonView::Str(s.service_type@)));
        assert(obj_view(m@) =~~= service_jval(s@)->Obj_0);
        assert(jview(r) =~~= service_jval(s@));
    }
    r
}

/// A verification method's wire value.
fn vm_json(v: &VerificationMethod) -> (r: Json)
    ensures
        jview(r) == vm_jval(v@),
{
    let mut m: Vec<(String, Json)> = Vec::new();
    m.push((String::from_str("controller"), Json::Str(v.controller.clone())));
    m.push((String::from_str("id"), Json::Str(v.id.clone())));
    m.push((String::from_str("publicKeyMultibase"), Json::Str(v.public_key_multibase.clone())));
    m.push((String::from_str("type"), Json::Str(v.verif_type.clone())));
    let r = Json::Obj(m);
    proof {
        assert(obj_view(m@)[0] == ("controller"@, JsonView::Str(v.controller@)));
        assert(obj_view(m@)[1] == ("id"@, JsonView::Str(v.id@)));
        assert(obj_view(m@)[2] == ("publicKeyMultibase"@, JsonView::Str(v.public_key_multibase@)));
        assert(obj_view(m@)[3] == ("type"@, JsonView::Str(v.verif_type@)));
        assert(obj_view(m@) =~~= vm_jval(v@)->Obj_0);
        assert(jview(r) =~~= vm_jval(v@));
    }
    r
}

/// The elements of a service list as wire values.
fn services_json(v: &Vec<Service>) -> (r: Vec<Json>)
    ensures
        arr_view(r@) == v@.map_values(|s: Service| s@).map_values(
            |s: ServiceView| service_jval(s),
        ),
{
    let mut r: Vec<Json> = Vec::new();
    let mut i: usize = 0;
    while i < v.len()
        invariant
            i <= v@.len(),
            r@.len() == i,
            forall|k: int| 0 <= k < i ==> jview(#[trigger] r@[k]) == service_jval(v@[k]@),
        decreases v@.len() - i,
    {
        let s = service_json(&v[i]);
        r.push(s);
        i = i + 1;
    }
    proof {
        assert(arr_view(r@) =~~= v@.map_values(|s: Service| s@).map_values(
            |s: ServiceView| service_jval(s),
        ));
    }
    r
}

/// The elements of a verification-method list as wire values.
fn vms_json(v: &Vec<VerificationMethod>) -> (r: Vec<Json>)
    ensures
        arr_view(r@) == v@.map_values(|m: VerificationMethod| m@).map_values(
            |m: VerificationMethodView| vm_jval(m),
        ),
{
    let mut r: Vec<Json> = Vec::new();
    let mut i: usize = 0;
    while i < v.len()
        invariant
            i <= v@.len(),
            r@.len() == i,
            forall|k: int| 0 <= k < i ==> jview(#[trigger] r@[k]) == vm_jval(v@[k]@),
        decreases v@.len() - i,
    {
        let m = vm_json(&v[i]);
        r.push(m);
        i = i + 1;
    }
    proof {
        assert(arr_view(r@) =~~= v@.map_values(|m: VerificationMethod| m@).map_values(
            |m: VerificationMethodView| vm_jval(m),
        ));
    }
    r
}

/// A DID document's wire value.
fn did_doc_json(d: &DidDoc) -> (r: Json)
    ensures
        jview(r) == did_doc_jval(d@),
{
    let mut m: Vec<(String, Json)> = Vec::new();
    m.push((String::from_str("@context"), Json::Arr(strings_json(&d.context))));
    m.push((String::from_str("alsoKnownAs"), Json::Arr(strings_json(&d.also_known_as))));
    m.push((String::from_str("id"), Json::Str(d.id.clone())));
    m.push((String::from_str("service"), Json::Arr(services_json(&d.service))));
    m.push((String::from_str("verificationMethod"), Json::Arr(vms_json(&d.verification_method))));
    let r = Json::Obj(m);
    proof {
        assert(obj_view(m@)[0] == (
            "@context"@,
            JsonView::Arr(d@.context.map_values(|t: Seq<char>| JsonView::Str(t))),
        ));
        assert(obj_view(m@)[1] == (
            "alsoKnownAs"@,
            JsonView::Arr(d@.also_known_as.map_values(|t: Seq<char>| JsonView::Str(t))),
        ));
        assert(obj_view(m@)[2] == ("id"@, JsonView::Str(d.id@)));
        assert(obj_view(m@)[3] == (
            "service"@,
            JsonView::Arr(d@.service.map_values(|s: ServiceView| service_jval(s))),
        ));
        assert(obj_view(m@)[4] == (
            "verificationMethod"@,
            JsonView::Arr(
                d@.verification_method.map_values(|m: VerificationMethodView| vm_jval(m)),
            ),
        ));
        assert(obj_view(m@) =~~= did_doc_jval(d@)->Obj_0);
        assert(jview(r) =~~= did_doc_jval(d@));
    }
    r
}

/// A session's wire value.
fn session_json(s: &Session) -> (r: Json)
    ensures
        jview(r) == session_jval(s@),
{
    let status_json = match &s.status {
        Some(t) => Json::Str(t.clone()),
        None => Json::Null,
    };
    let mut m: Vec<(String, Json)> = Vec::new();
    m.push((String::from_str("accessJwt"), Json::Str(s.access_jwt.clone())));
    m.push((String::from_str("refreshJwt"), Json::Str(s.refresh_jwt.clone())));
    m.push((String::from_str("handle"), Json::Str(s.handle.clone())));
    m.push((String::from_str("did"), Json::Str(s.did.clone())));
    m.push((String::from_str("didDoc"), did_doc_json(&s.did_doc)));
    m.push((String::from_str("email"), Json::Str(s.email.clone())));
    m.push((String::from_str("emailConfirmed"), Json::Bool(s.email_confirmed)));
    m.push((String::from_str("emailAuthFactor"), Json::Bool(s.email_auth_factor)));
    m.push((String::from_str("active"), Json::Bool(s.active)));
    m.push((String::from_str("status"), status_json));
    let r = Json::Obj(m);
    proof {
        assert(obj_view(m@)[0] == ("accessJwt"@, JsonView::Str(s.access_jwt@)));
        assert(obj_view(m@)[1] == ("refreshJwt"@, JsonView::Str(s.refresh_jwt@)));
        assert(obj_view(m@)[2] == ("handle"@, JsonView::Str(s.handle@)));
        assert(obj_view(m@)[3] == ("did"@, JsonView::Str(s.did@)));
        assert(obj_view(m@)[4] == ("didDoc"@, did_doc_jval(s.did_doc@)));
        assert(obj_view(m@)[5] == ("email"@, JsonView::Str(s.email@)));
        assert(obj_view(m@)[6] == ("emailConfirmed"@, JsonView::Bool(s.email_confirmed)));
        assert(obj_view(m@)[7] == ("emailAuthFactor"@, JsonView::Bool(s.email_auth_factor)));
        assert(obj_view(m@)[8] == ("active"@, JsonView::Bool(s.active)));
        assert(obj_view(m@)[9] == (
            "status"@,
            match s@.status {
                Some(t) => JsonView::Str(t),
                None => JsonView::Null,
            },
        ));
        assert(obj_view(m@) =~~= session_jval(s@)->Obj_0);
        assert(jview(r) =~~= session_jval(s@));
    }
    r
}

/// Encodes a session as the compact wire text, every member present.
pub fn encode_session(s: &Session) -> (r: String)
    ensures
        r@ == print_json(session_jval(s@)),
{
    let v = session_json(s);
    let mut out = String::new();
    write_json(&v, &mut out);
    out
}

impl CreateSession {
    /// The JSON body of the create-session request. A missing auth-factor
    /// token is sent as `"authFactorToken":""` — the key is never omitted.
    pub fn request_body(&self) -> (r: String)
        ensures
            r@ == print_json(create_session_jval(self@)),
    {
        let token = match &self.auth_factor_token {
            Some(t) => t.clone(),
            None => String::new(),
        };
        let mut m: Vec<(String, Json)> = Vec::new();
        m.push((String::from_str("identifier"), Json::Str(self.identifier.clone())));
        m.push((String::from_str("password"), Json::Str(self.password.clone())));
        m.push((String::from_str("authFactorToken"), Json::Str(token)));
        let v = Json::Obj(m);
        proof {
            assert(obj_view(m@)[0] == ("identifier"@, JsonView::Str(self.identifier@)));
            assert(obj_view(m@)[1] == ("password"@, JsonView::Str(self.password@)));
            assert(obj_view(m@)[2] == (
                "authFactorToken"@,
                JsonView::Str(
                    match self@.auth_factor_token {
                        Some(t) => t,
                        None => Seq::empty(),
                    },
                ),
            ));
            assert(obj_view(m@) =~~= create_session_jval(self@)->Obj_0);
            assert(jview(v) =~~= create_session_jval(self@));
        }
        let mut out = String::new();
        write_json(&v, &mut out);
        out
    }

}

/// Law: a create-session payload without an auth-factor token still carries
/// the `authFactorToken` member in its request body — as the empty string,
/// never omitted.
pub proof fn lemma_auth_factor_token_always_sent(c: CreateSessionView)
    requires
        c.auth_factor_token is None,
    ensures
        create_session_jval(c) matches JsonView::Obj(m) && obj_get(m, "authFactorToken"@)
            == Some(JsonView::Str(Seq::<char>::empty())),
{
    reveal_strlit("identifier");
    reveal_strlit("password");
    reveal_strlit("authFactorToken");
    assert(("identifier"@).len() == 10);
    assert(("password"@).len() == 8);
    assert(("authFactorToken"@).len() == 15);
    let m = create_session_jval(c)->Obj_0;
    let m1 = m.drop_first();
    let m2 = m1.drop_first();
    assert(m[0].0 != "authFactorToken"@);
    assert(m1[0].0 != "authFactorToken"@);
    assert(m2[0].0 == "authFactorToken"@);
    assert(obj_get(m, "authFactorToken"@) == obj_get(m1, "authFactorToken"@));
    assert(obj_get(m1, "authFactorToken"@) == obj_get(m2, "authFactorToken"@));
    assert(obj_get(m2, "authFactorToken"@) == Some(JsonView::Str(Seq::<char>::empty())));
}

/// Law: decoding a session body tolerates absent members. Any JSON object
/// decodes to a session, and each missing member leaves that field at its
/// default — empty string, false, empty document, or no status.
pub proof fn lemma_decode_session_defaults(t: Seq<char>, m: Seq<(Seq<char>, JsonView)>)
    requires
        spec_parse_json(t) == Some(JsonView::Obj(m)),
    ensures
        spec_decode_session(t) == Some(session_of(m)),
        obj_get(m, "accessJwt"@) is None ==> session_of(m).access_jwt == Seq::<char>::empty(),
        obj_get(m, "refreshJwt"@) is None ==> session_of(m).refresh_jwt
            == Seq::<char>::empty(),
        obj_get(m, "handle"@) is None ==> session_of(m).handle == Seq::<char>::empty(),
        obj_get(m, "did"@) is None ==> session_of(m).did == Seq::<char>::empty(),
        obj_get(m, "didDoc"@) is None ==> session_of(m).did_doc == empty_did_doc(),
        obj_get(m, "email"@) is None ==> session_of(m).email == Seq::<char>::empty(),
        obj_get(m, "emailConfirmed"@) is None ==> !session_of(m).email_confirmed,
        obj_get(m, "emailAuthFactor"@) is None ==> !session_of(m).email_auth_factor,
        obj_get(m, "active"@) is None ==> !session_of(m).active,
        obj_get(m, "status"@) is None ==> session_of(m).status is None,
{
    if obj_get(m, "didDoc"@) is None {
        assert(strings_of(Seq::<JsonView>::empty()) =~= Seq::<Seq<char>>::empty());
        assert(services_of(Seq::<JsonView>::empty()) =~= Seq::<ServiceView>::empty());
        assert(vms_of(Seq::<JsonView>::empty()) =~= Seq::<VerificationMethodView>::empty());
        assert(obj_get(Seq::<(Seq<char>, JsonView)>::empty(), "id"@) is None);
        assert(did_doc_of(jobj(obj_get(m, "didDoc"@))) =~= empty_did_doc());
    }
}

/// Walks a lookup over the members one step at a time.
proof fn lemma_obj_get_step(m: Seq<(Seq<char>, JsonView)>, key: Seq<char>)
    requires
        m.len() > 0,
        m[0].0 != key,
    ensures
        obj_get(m, key) == obj_get(m.drop_first(), key),
{
}

/// Law, value level: a service entry's wire image decodes back to the entry.
pub proof fn lemma_service_value_round_trip(s: ServiceView)
    ensures
        service_jval(s) matches JsonView::Obj(m) && service_of(m) == s,
{
    reveal_strlit("id");
    reveal_strlit("serviceEndpoint");
    reveal_strlit("type");
    assert(("id"@).len() == 2);
    assert(("serviceEndpoint"@).len() == 15);
    assert(("type"@).len() == 4);
    let m = service_jval(s)->Obj_0;
    let m1 = m.drop_first();
    let m2 = m1.drop_first();
    assert(obj_get(m, "id"@) == Some(JsonView::Str(s.id)));
    lemma_obj_get_step(m, "serviceEndpoint"@);
    assert(obj_get(m1, "serviceEndpoint"@) == Some(JsonView::Str(s.service_endpoint)));
    lemma_obj_get_step(m, "type"@);
    lemma_obj_get_step(m1, "type"@);
    assert(obj_get(m2, "type"@) == Some(JsonView::Str(s.service_type)));
    assert(service_of(m) =~= s);
}

/// Law, value level: a verification method's wire image decodes back to it.
pub proof fn lemma_vm_value_round_trip(v: VerificationMethodView)
    ensures
        vm_jval(v) matches JsonView::Obj(m) && vm_of(m) == v,
{
    reveal_strlit("controller");
    reveal_strlit("id");
    reveal_strlit("publicKeyMultibase");
    reveal_strlit("type");
    assert(("controller"@).len() == 10);
    assert(("id"@).len() == 2);
    assert(("publicKeyMultibase"@).len() == 18);
    assert(("type"@).len() == 4);
    let m = vm_jval(v)->Obj_0;
    let m1 = m.drop_first();
    let m2 = m1.drop_first();
    let m3 = m2.drop_first();
    assert(obj_get(m, "controller"@) == Some(JsonView::Str(v.controller)));
    lemma_obj_get_step(m, "id"@);
    assert(obj_get(m1, "id"@) == Some(JsonView::Str(v.id)));
    lemma_obj_get_step(m, "publicKeyMultibase"@);
    lemma_obj_get_step(m1, "publicKeyMultibase"@);
    assert(obj_get(m2, "publicKeyMultibase"@) == Some(JsonView::Str(v.public_key_multibase)));
    lemma_obj_get_step(m, "type"@);
    lemma_obj_get_step(m1, "type"@);
    lemma_obj_get_step(m2, "type"@);
    assert(obj_get(m3, "type"@) == Some(JsonView::Str(v.verif_type)));
    assert(vm_of(m) =~= v);
}

/// Law, value level: a DID document's wire image decodes back to it.
pub proof fn lemma_did_doc_value_round_trip(d: DidDocView)
    ensures
        did_doc_jval(d) matches JsonView::Obj(m) && did_doc_of(m) == d,
{
    reveal_strlit("@context");
    reveal_strlit("alsoKnownAs");
    reveal_strlit("id");
    reveal_strlit("service");
    reveal_strlit("verificationMethod");
    assert(("@context"@).len() == 8);
    assert(("alsoKnownAs"@).len() == 11);
    assert(("id"@).len() == 2);
    assert(("service"@).len() == 7);
    assert(("verificationMethod"@).len() == 18);
    let m = did_doc_jval(d)->Obj_0;
    let m1 = m.drop_first();
    let m2 = m1.drop_first();
    let m3 = m2.drop_first();
    let m4 = m3.drop_first();
    let ctx = d.context.map_values(|t: Seq<char>| JsonView::Str(t));
    let aka = d.also_known_as.map_values(|t: Seq<char>| JsonView::Str(t));
    let svc = d.service.map_values(|s: ServiceView| service_jval(s));
    let vms = d.verification_method.map_values(|m: VerificationMethodView| vm_jval(m));
    assert(obj_get(m, "@context"@) == Some(JsonView::Arr(ctx)));
    lemma_obj_get_step(m, "alsoKnownAs"@);
    assert(obj_get(m1, "alsoKnownAs"@) == Some(JsonView::Arr(aka)));
    lemma_obj_get_step(m, "id"@);
    lemma_obj_get_step(m1, "id"@);
    assert(obj_get(m2, "id"@) == Some(JsonView::Str(d.id)));
    lemma_obj_get_step(m, "service"@);
    lemma_obj_get_step(m1, "service"@);
    lemma_obj_get_step(m2, "service"@);
    assert(obj_get(m3, "service"@) == Some(JsonView::Arr(svc)));
    lemma_obj_get_step(m, "verificationMethod"@);
    lemma_obj_get_step(m1, "verificationMethod"@);
    lemma_obj_get_step(m2, "verificationMethod"@);
    lemma_obj_get_step(m3, "verificationMethod"@);
    assert(obj_get(m4, "verificationMethod"@) == Some(JsonView::Arr(vms)));
    assert(strings_of(ctx) =~= d.context);
    assert(strings_of(aka) =~= d.also_known_as);
    assert forall|i: int| 0 <= i < svc.len() implies services_of(svc)[i] == d.service[i] by {
        lemma_service_value_round_trip(d.service[i]);
    }
    assert(services_of(svc) =~= d.service);
    assert forall|i: int| 0 <= i < vms.len() implies vms_of(vms)[i]
        == d.verification_method[i] by {
        lemma_vm_value_round_trip(d.verification_method[i]);
    }
    assert(vms_of(vms) =~= d.verification_method);
    assert(did_doc_of(m) =~= d);
}

/// Law, value level: a session encoded to its wire image and decoded again is
/// unchanged, field for field — an absent status goes out as `null` and comes
/// back absent.
pub proof fn lemma_session_value_round_trip(s: SessionView)
    ensures
        session_jval(s) matches JsonView::Obj(m) && session_of(m) == s,
{
    reveal_strlit("accessJwt");
    reveal_strlit("refreshJwt");
    reveal_strlit("handle");
    reveal_strlit("did");
    reveal_strlit("didDoc");
    reveal_strlit("email");
    reveal_strlit("emailConfirmed");
    reveal_strlit("emailAuthFactor");
    reveal_strlit("active");
    reveal_strlit("status");
    assert(("accessJwt"@).len() == 9);
    assert(("refreshJwt"@).len() == 10);
    assert(("handle"@).len() == 6);
    assert(("did"@).len() == 3);
    assert(("didDoc"@).len() == 6);
    assert(("email"@).len() == 5);
    assert(("emailConfirmed"@).len() == 14);
    assert(("emailAuthFactor"@).len() == 15);
    assert(("active"@).len() == 6);
    assert(("status"@).len() == 6);
    assert(("handle"@)[0] == 'h');
    assert(("didDoc"@)[0] == 'd');
    assert(("active"@)[0] == 'a');
    assert(("status"@)[0] == 's');
    let m = session_jval(s)->Obj_0;
    let m1 = m.drop_first();
    let m2 = m1.drop_first();
    let m3 = m2.drop_first();
    let m4 = m3.drop_first();
    let m5 = m4.drop_first();
    let m6 = m5.drop_first();
    let m7 = m6.drop_first();
    let m8 = m7.drop_first();
    let m9 = m8.drop_first();
    assert(obj_get(m, "accessJwt"@) == Some(JsonView::Str(s.access_jwt)));
    lemma_obj_get_step(m, "refreshJwt"@);
    assert(obj_get(m1, "refreshJwt"@) == Some(JsonView::Str(s.refresh_jwt)));
    lemma_obj_get_step(m, "handle"@);
    lemma_obj_get_step(m1, "handle"@);
    assert(obj_get(m2, "handle"@) == Some(JsonView::Str(s.handle)));
    lemma_obj_get_step(m, "did"@);
    lemma_obj_get_step(m1, "did"@);
    lemma_obj_get_step(m2, "did"@);
    assert(obj_get(m3, "did"@) == Some(JsonView::Str(s.did)));
    lemma_obj_get_step(m, "didDoc"@);
    lemma_obj_get_step(m1, "didDoc"@);
    lemma_obj_get_step(m2, "didDoc"@);
    lemma_obj_get_step(m3, "didDoc"@);
    assert(obj_get(m4, "didDoc"@) == Some(did_doc_jval(s.did_doc)));
    lemma_obj_get_step(m, "email"@);
    lemma_obj_get_step(m1, "email"@);
    lemma_obj_get_step(m2, "email"@);
    lemma_obj_get_step(m3, "email"@);
    lemma_obj_get_step(m4, "email"@);
    assert(obj_get(m5, "email"@) == Some(JsonView::Str(s.email)));
    lemma_obj_get_step(m, "emailConfirmed"@);
    lemma_obj_get_step(m1, "emailConfirmed"@);
    lemma_obj_get_step(m2, "emailConfirmed"@);
    lemma_obj_get_step(m3, "emailConfirmed"@);
    lemma_obj_get_step(m4, "emailConfirmed"@);
    lemma_obj_get_step(m5, "emailConfirmed"@);
    assert(obj_get(m6, "emailConfirmed"@) == Some(JsonView::Bool(s.email_confirmed)));
    lemma_obj_get_step(m, "emailAuthFactor"@);
    lemma_obj_get_step(m1, "emailAuthFactor"@);
    lemma_obj_get_step(m2, "emailAuthFactor"@);
    lemma_obj_get_step(m3, "emailAuthFactor"@);
    lemma_obj_get_step(m4, "emailAuthFactor"@);
    lemma_obj_get_step(m5, "emailAuthFactor"@);
    lemma_obj_get_step(m6, "emailAuthFactor"@);
    assert(obj_get(m7, "emailAuthFactor"@) == Some(JsonView::Bool(s.email_auth_factor)));
    lemma_obj_get_step(m, "active"@);
    lemma_obj_get_step(m1, "active"@);
    lemma_obj_get_step(m2, "active"@);
    lemma_obj_get_step(m3, "active"@);
    lemma_obj_get_step(m4, "active"@);
    lemma_obj_get_step(m5, "active"@);
    lemma_obj_get_step(m6, "active"@);
    lemma_obj_get_step(m7, "active"@);
    assert(obj_get(m8, "active"@) == Some(JsonView::Bool(s.active)));
    lemma_obj_get_step(m, "status"@);
    lemma_obj_get_step(m1, "status"@);
    lemma_obj_get_step(m2, "status"@);
    lemma_obj_get_step(m3, "status"@);
    lemma_obj_get_step(m4, "status"@);
    lemma_obj_get_step(m5, "status"@);
    lemma_obj_get_step(m6, "status"@);
    lemma_obj_get_step(m7, "status"@);
    lemma_obj_get_step(m8, "status"@);
    assert(obj_get(m9, "status"@) == Some(
        match s.status {
            Some(t) => JsonView::Str(t),
            None => JsonView::Null,
        },
    ));
    lemma_did_doc_value_round_trip(s.did_doc);
    assert(session_of(m) =~= s);
}

/// Law: on a rejecting status an operation maps to, a decodable error body
/// comes back exactly — 400 for create, 400 and 401 for refresh and delete,
/// 401 for get.
pub proof fn lemma_error_statuses(status: u16, t: Seq<char>, nv: NoView)
    requires
        spec_decode_error(t) == Some(nv),
    ensures
        status == 400 ==> spec_create_session(status, t) == Some(
            ResponseView::<SessionView>::Failure(nv),
        ),
        status == 400 || status == 401 ==> spec_refresh_session(status, t) == Some(
            ResponseView::<SessionView>::Failure(nv),
        ),
        status == 401 ==> spec_get_session(status, t) == Some(
            ResponseView::<SessionView>::Failure(nv),
        ),
        status == 400 || status == 401 ==> spec_delete_session(status, t) == Some(
            ResponseView::<u16>::Failure(nv),
        ),
{
}

/// Law: a status code no operation recognizes yields the empty failure, for
/// every operation and whatever the body holds.
pub proof fn lemma_unrecognized_status(status: u16, t: Seq<char>)
    requires
        status != 200,
        status != 400,
        status != 401,
    ensures
        spec_create_session(status, t) == Some(empty_failure::<SessionView>()),
        spec_refresh_session(status, t) == Some(empty_failure::<SessionView>()),
        spec_get_session(status, t) == Some(empty_failure::<SessionView>()),
        spec_delete_session(status, t) == Some(empty_failure::<u16>()),
{
}

/// Law: every session round-trips through its wire text, and a 200 create,
/// refresh or get response carrying that text yields success with exactly
/// that session.
pub proof fn lemma_session_round_trip(s: SessionView)
    ensures
        spec_decode_session(print_json(session_jval(s))) == Some(s),
        spec_create_session(200, print_json(session_jval(s))) == Some(
            ResponseView::Success(s),
        ),
        spec_refresh_session(200, print_json(session_jval(s))) == Some(
            ResponseView::Success(s),
        ),
        spec_get_session(200, print_json(session_jval(s))) == Some(ResponseView::Success(s)),
{
    crate::json::lemma_print_parse_round_trip(session_jval(s));
    lemma_session_value_round_trip(s);
}

} // verus!
