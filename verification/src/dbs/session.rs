//! The session of a connection: who is connected, what they have selected,
//! and the capability they hold; and the bindings that a query run in the
//! session sees.

use std::sync::Arc;
use vstd::prelude::*;
use crate::ctx::Context;
use crate::iam::Auth;
use crate::iam::Level;
use crate::iam::Realm;
use crate::iam::Role;
use crate::sql::value::bind;
use crate::sql::value::object_of;
use crate::sql::value::Doc;
use crate::sql::value::Value;

verus! {

/// The session information of a connection. A session is a plain value: the
/// `with_` methods take one and give back another, and whoever holds a
/// session decides which one the next query runs in.
#[derive(Clone, Debug, PartialEq, Eq)]
pub struct Session {
    /// The capability that the connection holds
    pub au: Arc<Auth>,
    /// Whether realtime queries are supported
    pub rt: bool,
    /// The address that the connection comes from
    pub ip: Option<String>,
    /// The origin of the connection
    pub or: Option<String>,
    /// The identifier of the connection
    pub id: Option<String>,
    /// The selected namespace
    pub ns: Option<String>,
    /// The selected database
    pub db: Option<String>,
    /// The selected authentication scope
    pub sc: Option<String>,
    /// The token of the scope authentication
    pub tk: Option<Value>,
    /// The data of the scope authentication
    pub sd: Option<Value>,
}

/// A session as a mathematical value.
pub struct SessionState {
    pub au: (Realm, Role),
    pub rt: bool,
    pub ip: Option<Seq<char>>,
    pub or: Option<Seq<char>>,
    pub id: Option<Seq<char>>,
    pub ns: Option<Seq<char>>,
    pub db: Option<Seq<char>>,
    pub sc: Option<Seq<char>>,
    pub tk: Option<Doc>,
    pub sd: Option<Doc>,
}

/// The text that an optional string holds.
pub open spec fn text_of(s: Option<String>) -> Option<Seq<char>> {
    match s {
        Some(s) => Some(s@),
        None => None,
    }
}

/// The document that an optional value denotes.
pub open spec fn doc_of(v: Option<Value>) -> Option<Doc> {
    match v {
        Some(v) => Some(v@),
        None => None,
    }
}

impl View for Session {
    type V = SessionState;

    open spec fn view(&self) -> SessionState {
        SessionState {
            au: self.au@,
            rt: self.rt,
            ip: text_of(self.ip),
            or: text_of(self.or),
            id: text_of(self.id),
            ns: text_of(self.ns),
            db: text_of(self.db),
            sc: text_of(self.sc),
            tk: doc_of(self.tk),
            sd: doc_of(self.sd),
        }
    }
}

/// The session of a connection that has authenticated nothing and selected
/// nothing.
pub open spec fn blank() -> SessionState {
    SessionState {
        au: (Realm::No, Role::Viewer),
        rt: false,
        ip: None,
        or: None,
        id: None,
        ns: None,
        db: None,
        sc: None,
        tk: None,
        sd: None,
    }
}

/// The system session for a level and a role: it holds the capability for
/// that level and role and has selected the namespace and the database that
/// the level names. For no level it is the blank session.
pub open spec fn system_session(realm: Realm, role: Role) -> SessionState {
    match realm {
        Realm::No => blank(),
        Realm::Root => SessionState { au: (Realm::Root, role), ..blank() },
        Realm::Namespace(ns) => SessionState {
            au: (Realm::Namespace(ns), role),
            ns: Some(ns),
            ..blank()
        },
        Realm::Database(ns, db) => SessionState {
            au: (Realm::Database(ns, db), role),
            ns: Some(ns),
            db: Some(db),
            ..blank()
        },
    }
}

/// The document that stands for an optional text: the text, or null.
pub open spec fn text_or_null(s: Option<Seq<char>>) -> Doc {
    match s {
        Some(s) => Doc::Text(s),
        None => Doc::Null,
    }
}

/// The document that stands for an optional document: itself, or null.
pub open spec fn doc_or_null(d: Option<Doc>) -> Doc {
    match d {
        Some(d) => d,
        None => Doc::Null,
    }
}

/// The document that a query sees as `session`: an object of exactly eight
/// keys, each bound whether or not the session has the field set.
pub open spec fn session_doc(s: SessionState) -> Doc {
    Doc::Object(
        Map::<Seq<char>, Doc>::empty()
            .insert("db"@, text_or_null(s.db))
            .insert("id"@, text_or_null(s.id))
            .insert("ip"@, text_or_null(s.ip))
            .insert("ns"@, text_or_null(s.ns))
            .insert("or"@, text_or_null(s.or))
            .insert("sc"@, text_or_null(s.sc))
            .insert("sd"@, doc_or_null(s.sd))
            .insert("tk"@, doc_or_null(s.tk)),
    )
}

/// What a scope shows once the bindings of a session are added to it: `auth`,
/// `scope`, `token` and `session`, and below them whatever it showed before.
pub open spec fn session_bindings(
    s: SessionState,
    below: Map<Seq<char>, Doc>,
) -> Map<Seq<char>, Doc> {
    below
        .insert("auth"@, doc_or_null(s.sd))
        .insert("scope"@, text_or_null(s.sc))
        .insert("token"@, doc_or_null(s.tk))
        .insert("session"@, session_doc(s))
}

/// The names of the four bindings are four different names.
proof fn lemma_binding_names_differ()
    ensures
        "auth"@ != "scope"@,
        "auth"@ != "token"@,
        "auth"@ != "session"@,
        "scope"@ != "token"@,
        "scope"@ != "session"@,
        "token"@ != "session"@,
{
    reveal_strlit("auth");
    reveal_strlit("scope");
    reveal_strlit("token");
    reveal_strlit("session");
    assert("auth"@.len() == 4 && "scope"@.len() == 5 && "token"@.len() == 5 && "session"@.len()
        == 7);
    assert("scope"@[0] == 's' && "token"@[0] == 't');
}

/// The names of the eight fields are eight different names.
proof fn lemma_field_names_differ()
    ensures
        "db"@ != "id"@ && "db"@ != "ip"@ && "db"@ != "ns"@ && "db"@ != "or"@ && "db"@ != "sc"@
            && "db"@ != "sd"@ && "db"@ != "tk"@,
        "id"@ != "ip"@ && "id"@ != "ns"@ && "id"@ != "or"@ && "id"@ != "sc"@ && "id"@ != "sd"@
            && "id"@ != "tk"@,
        "ip"@ != "ns"@ && "ip"@ != "or"@ && "ip"@ != "sc"@ && "ip"@ != "sd"@ && "ip"@ != "tk"@,
        "ns"@ != "or"@ && "ns"@ != "sc"@ && "ns"@ != "sd"@ && "ns"@ != "tk"@,
        "or"@ != "sc"@ && "or"@ != "sd"@ && "or"@ != "tk"@,
        "sc"@ != "sd"@ && "sc"@ != "tk"@,
        "sd"@ != "tk"@,
{
    reveal_strlit("db");
    reveal_strlit("id");
    reveal_strlit("ip");
    reveal_strlit("ns");
    reveal_strlit("or");
    reveal_strlit("sc");
    reveal_strlit("sd");
    reveal_strlit("tk");
    assert("db"@[0] == 'd' && "id"@[0] == 'i' && "ip"@[0] == 'i' && "ns"@[0] == 'n' && "or"@[0]
        == 'o' && "sc"@[0] == 's' && "sd"@[0] == 's' && "tk"@[0] == 't');
    assert("id"@[1] == 'd' && "ip"@[1] == 'p' && "sc"@[1] == 'c' && "sd"@[1] == 'd');
}

/// The `session` document binds exactly eight keys, whatever the session has
/// set, each to the document of its field: to the field's value or to null.
pub proof fn law_session_doc_fields(s: SessionState)
    ensures
        session_doc(s) is Object,
        forall|k: Seq<char>|
            session_doc(s)->Object_0.contains_key(k) <==> (k == "db"@ || k == "id"@ || k == "ip"@
                || k == "ns"@ || k == "or"@ || k == "sc"@ || k == "sd"@ || k == "tk"@),
        session_doc(s)->Object_0["db"@] == text_or_null(s.db),
        session_doc(s)->Object_0["id"@] == text_or_null(s.id),
        session_doc(s)->Object_0["ip"@] == text_or_null(s.ip),
        session_doc(s)->Object_0["ns"@] == text_or_null(s.ns),
        session_doc(s)->Object_0["or"@] == text_or_null(s.or),
        session_doc(s)->Object_0["sc"@] == text_or_null(s.sc),
        session_doc(s)->Object_0["sd"@] == doc_or_null(s.sd),
        session_doc(s)->Object_0["tk"@] == doc_or_null(s.tk),
{
    lemma_field_names_differ();
}

/// Adding the bindings of a session to a scope adds exactly four bindings:
/// `auth`, `scope`, `token` and `session` show what the session holds, and
/// every other name shows what it showed before.
pub proof fn law_session_bindings(s: SessionState, below: Map<Seq<char>, Doc>)
    ensures
        session_bindings(s, below)["auth"@] == doc_or_null(s.sd),
        session_bindings(s, below)["scope"@] == text_or_null(s.sc),
        session_bindings(s, below)["token"@] == doc_or_null(s.tk),
        session_bindings(s, below)["session"@] == session_doc(s),
        forall|k: Seq<char>|
            session_bindings(s, below).contains_key(k) <==> (below.contains_key(k) || k == "auth"@
                || k == "scope"@ || k == "token"@ || k == "session"@),
        forall|k: Seq<char>|
            k != "auth"@ && k != "scope"@ && k != "token"@ && k != "session"@
                ==> session_bindings(s, below)[k] == below[k],
{
    lemma_binding_names_differ();
}

/// A query run in the blank session sees null for `auth`, `scope` and
/// `token`, and null for every field of `session`.
pub proof fn law_blank_session_binds_nulls(below: Map<Seq<char>, Doc>)
    ensures
        session_bindings(blank(), below)["auth"@] == Doc::Null,
        session_bindings(blank(), below)["scope"@] == Doc::Null,
        session_bindings(blank(), below)["token"@] == Doc::Null,
        session_bindings(blank(), below)["session"@] is Object,
        forall|k: Seq<char>|
            session_bindings(blank(), below)["session"@]->Object_0.contains_key(k) ==> (
            #[trigger] session_bindings(blank(), below)["session"@]->Object_0[k]) == Doc::Null,
{
    law_session_bindings(blank(), below);
    law_session_doc_fields(blank());
}

/// A shared handle on a copy of `s`, made by `Arc::from`, which allocates a
/// reference-counted string slice and copies the text into it.
#[verifier::external_body]
fn share(s: &str) -> (handle: Arc<str>)
    ensures
        handle@ == s@,
{
    Arc::from(s)
}

/// The value that stands for an optional string.
fn text_value(s: &Option<String>) -> (v: Value)
    ensures
        v@ == text_or_null(text_of(*s)),
{
    match s {
        Some(s) => Value::Text(s.clone()),
        None => Value::Null,
    }
}

/// The value that stands for an optional value.
fn doc_value(d: &Option<Value>) -> (v: Value)
    ensures
        v@ == doc_or_null(doc_of(*d)),
{
    match d {
        Some(d) => d.clone(),
        None => Value::Null,
    }
}

impl Default for Session {
    /// The session of a connection that has authenticated nothing and
    /// selected nothing.
    fn default() -> (s: Session)
        ensures
            s@ == blank(),
    {
        Session {
            au: Arc::new(Auth::default()),
            rt: false,
            ip: None,
            or: None,
            id: None,
            ns: None,
            db: None,
            sc: None,
            tk: None,
            sd: None,
        }
    }
}

impl Session {
    /// Set the selected namespace for the session
    pub fn with_ns(self, ns: &str) -> (s: Session)
        ensures
            s@ == (SessionState { ns: Some(ns@), ..self@ }),
    {
        let mut s = self;
        s.ns = Some(ns.to_owned());
        s
    }

    /// Set the selected database for the session
    pub fn with_db(self, db: &str) -> (s: Session)
        ensures
            s@ == (SessionState { db: Some(db@), ..self@ }),
    {
        let mut s = self;
        s.db = Some(db.to_owned());
        s
    }

    /// Set the realtime functionality of the session
    pub fn with_rt(self, rt: bool) -> (s: Session)
        ensures
            s@ == (SessionState { rt, ..self@ }),
    {
        let mut s = self;
        s.rt = rt;
        s
    }

    /// Retrieves the selected namespace
    pub fn ns(&self) -> (r: Option<Arc<str>>)
        ensures
            match r {
                Some(handle) => self@.ns == Some(handle@),
                None => self@.ns is None,
            },
    {
        match &self.ns {
            Some(ns) => Some(share(ns.as_str())),
            None => None,
        }
    }

    /// Retrieves the selected database
    pub fn db(&self) -> (r: Option<Arc<str>>)
        ensures
            match r {
                Some(handle) => self@.db == Some(handle@),
                None => self@.db is None,
            },
    {
        match &self.db {
            Some(db) => Some(share(db.as_str())),
            None => None,
        }
    }

    /// Checks if live queries are allowed
    pub fn live(&self) -> (b: bool)
        ensures
            b == self@.rt,
    {
        self.rt
    }

    /// Adds to a scope the bindings that a query run in this session sees
    pub fn context<'a>(&self, ctx: Context<'a>) -> (r: Context<'a>)
        ensures
            r@ == session_bindings(self@, ctx@),
    {
        let mut ctx = ctx;
        // Add scope auth data
        ctx.add_value("auth", doc_value(&self.sd));
        // Add scope data
        ctx.add_value("scope", text_value(&self.sc));
        // Add token data
        ctx.add_value("token", doc_value(&self.tk));
        // Add session value
        let mut fields: Vec<(String, Value)> = Vec::new();
        assert(object_of(fields@) =~= Map::<Seq<char>, Doc>::empty());
        bind(&mut fields, "db".to_owned(), text_value(&self.db));
        bind(&mut fields, "id".to_owned(), text_value(&self.id));
        bind(&mut fields, "ip".to_owned(), text_value(&self.ip));
        bind(&mut fields, "ns".to_owned(), text_value(&self.ns));
        bind(&mut fields, "or".to_owned(), text_value(&self.or));
        bind(&mut fields, "sc".to_owned(), text_value(&self.sc));
        bind(&mut fields, "sd".to_owned(), doc_value(&self.sd));
        bind(&mut fields, "tk".to_owned(), doc_value(&self.tk));
        ctx.add_value("session", Value::Object(fields));
        // Output context
        ctx
    }

    /// Create a system session for a given level and role
    pub fn for_level(level: Level, role: Role) -> (s: Session)
        ensures
            s@ == system_session(level@, role),
    {
        let mut sess = Session::default();
        match level {
            Level::No => {},
            Level::Root => {
                sess.au = Arc::new(Auth::for_root(role));
            },
            Level::Namespace(ns) => {
                sess.au = Arc::new(Auth::for_ns(role, ns.as_str()));
                sess.ns = Some(ns);
            },
            Level::Database(ns, db) => {
                sess.au = Arc::new(Auth::for_db(role, ns.as_str(), db.as_str()));
                sess.ns = Some(ns);
                sess.db = Some(db);
            },
        }
        sess
    }

    /// Create a system session for the root level with Owner role
    pub fn owner() -> (s: Session)
        ensures
            s@ == system_session(Realm::Root, Role::Owner),
    {
        Session::for_level(Level::Root, Role::Owner)
    }

    /// Create a system session for the root level with Editor role
    pub fn editor() -> (s: Session)
        ensures
            s@ == system_session(Realm::Root, Role::Editor),
    {
        Session::for_level(Level::Root, Role::Editor)
    }

    /// Create a system session for the root level with Viewer role
    pub fn viewer() -> (s: Session)
        ensures
            s@ == system_session(Realm::Root, Role::Viewer),
    {
        Session::for_level(Level::Root, Role::Viewer)
    }
}

} // verus!
