//! What the `migrate` command works out before it touches a database: which
//! server to talk to, which database to prepare, and with which statements.

use vstd::prelude::*;

verus! {

/// The text of the URL that `Url::parse` reads from `input`, as `Url::as_str`
/// gives it; `None` where `input` is no absolute URL.
pub uninterp spec fn url_serialization(input: Seq<char>) -> Option<Seq<char>>;

/// The path of the URL that `Url::parse` reads from `input`, as `Url::path`
/// gives it.
pub uninterp spec fn url_path(input: Seq<char>) -> Seq<char>;

/// Calls `url::Url::parse`, and on the URL that it returns `Url::as_str` and
/// `Url::path`. The answer is `None` exactly where parsing fails. Otherwise
/// it holds the text of the URL and its path, both of which depend on the
/// input alone.
#[verifier::external_body]
fn parse_url(input: &str) -> (r: Option<(String, String)>)
    ensures
        match r {
            Some(parts) => url_serialization(input@) == Some(parts.0@) && url_path(input@)
                == parts.1@,
            None => url_serialization(input@) is None,
        },
{
    match url::Url::parse(input) {
        Ok(parsed) => Some((parsed.as_str().to_string(), parsed.path().to_string())),
        Err(_) => None,
    }
}

/// `text` without the run of `c` that it starts with.
pub open spec fn trim_start(text: Seq<char>, c: char) -> Seq<char>
    decreases text.len(),
{
    if text.len() > 0 && text[0] == c {
        trim_start(text.drop_first(), c)
    } else {
        text
    }
}

/// Whether `text` ends with `pattern`.
pub open spec fn ends_with(text: Seq<char>, pattern: Seq<char>) -> bool {
    pattern.len() <= text.len() && text.subrange(text.len() - pattern.len(), text.len() as int)
        == pattern
}

/// `text` without the repetitions of `pattern` that it ends with. An empty
/// pattern removes nothing.
pub open spec fn trim_end(text: Seq<char>, pattern: Seq<char>) -> Seq<char>
    decreases text.len(),
{
    if pattern.len() > 0 && ends_with(text, pattern) {
        trim_end(text.take(text.len() - pattern.len()), pattern)
    } else {
        text
    }
}

/// A database and the server that holds it.
#[derive(Debug, PartialEq, Eq)]
pub struct DbTarget {
    /// The URL of the server: the database's URL without the name at its end.
    pub base_url: String,
    /// The name of the database.
    pub db_name: String,
}

/// What a [`DbTarget`] is, as plain values.
pub ghost struct DbTargetView {
    pub base_url: Seq<char>,
    pub db_name: Seq<char>,
}

impl View for DbTarget {
    type V = DbTargetView;

    open spec fn view(&self) -> DbTargetView {
        DbTargetView { base_url: self.base_url@, db_name: self.db_name@ }
    }
}

/// The database that a URL with the given text and path names: the name is
/// the path without its leading slashes, the server is the text without the
/// name at its end.
pub open spec fn spec_target(text: Seq<char>, path: Seq<char>) -> DbTargetView {
    let db_name = trim_start(path, '/');
    DbTargetView { base_url: trim_end(text, db_name), db_name }
}

fn strip_leading(text: &str, c: char) -> (r: String)
    ensures
        r@ == trim_start(text@, c),
{
    let n = text.unicode_len();
    let mut k: usize = 0;
    let mut done = false;
    assert(text@.skip(0) =~= text@);
    while k < n && !done
        invariant
            n == text@.len(),
            k <= n,
            trim_start(text@, c) == trim_start(text@.skip(k as int), c),
            done ==> k < n && text@[k as int] != c,
        decreases (n - k) + (if done { 0int } else { 1int }),
    {
        if text.get_char(k) == c {
            assert(text@.skip(k as int).drop_first() =~= text@.skip(k + 1));
            k += 1;
        } else {
            done = true;
        }
    }
    assert(text@.skip(k as int) =~= text@.subrange(k as int, n as int));
    text.substring_char(k, n).to_owned()
}

fn strip_trailing(text: &str, pattern: &str) -> (r: String)
    ensures
        r@ == trim_end(text@, pattern@),
{
    let n = text.unicode_len();
    let m = pattern.unicode_len();
    if m == 0 {
        return text.to_owned();
    }
    let wanted = pattern.to_owned();
    let mut end: usize = n;
    let mut done = false;
    assert(text@.take(n as int) =~= text@);
    while end >= m && !done
        invariant
            n == text@.len(),
            m == pattern@.len(),
            m > 0,
            wanted@ == pattern@,
            end <= n,
            trim_end(text@, pattern@) == trim_end(text@.take(end as int), pattern@),
            done ==> !ends_with(text@.take(end as int), pattern@),
        decreases end + (if done { 0int } else { 1int }),
    {
        let tail = text.substring_char(end - m, end).to_owned();
        assert(text@.take(end as int).subrange(end - m, end as int) =~= text@.subrange(
            end - m,
            end as int,
        ));
        if tail == wanted {
            assert(text@.take(end as int).take(end - m) =~= text@.take(end - m));
            end -= m;
        } else {
            done = true;
        }
    }
    assert(text@.take(end as int) =~= text@.subrange(0, end as int));
    text.substring_char(0, end).to_owned()
}

/// The database that a URL with the given text and path names.
pub fn target_of(text: &str, path: &str) -> (r: DbTarget)
    ensures
        r@ == spec_target(text@, path@),
{
    let db_name = strip_leading(path, '/');
    let base_url = strip_trailing(text, db_name.as_str());
    DbTarget { base_url, db_name }
}

/// The database that `db_url` names, if `db_url` is a URL at all.
pub fn split_db_url(db_url: &str) -> (r: Option<DbTarget>)
    ensures
        match url_serialization(db_url@) {
            Some(text) => r is Some && r->0@ == spec_target(text, url_path(db_url@)),
            None => r is None,
        },
{
    match parse_url(db_url) {
        Some((text, path)) => Some(target_of(text.as_str(), path.as_str())),
        None => None,
    }
}

/// The kinds of database server.
#[derive(Clone, Copy, Debug, PartialEq, Eq, Structural)]
pub enum DbBackend {
    MySql,
    Postgres,
    Sqlite,
}

/// What to do to a server before the migrations run.
#[derive(Debug, PartialEq, Eq)]
pub struct SetupPlan {
    /// The statements to execute, in this order.
    pub statements: Vec<String>,
    /// The URL to connect to afterwards; `None` to stay on the connection at
    /// hand.
    pub reconnect_url: Option<String>,
}

/// The URL of the database `db_name` on the server at `req_url`.
pub open spec fn spec_database_url(req_url: Seq<char>, db_name: Seq<char>) -> Seq<char> {
    req_url + "/"@ + db_name
}

/// The question that tells whether a database exists on a server of the
/// given kind, with the name of the database as its one parameter. Only
/// Postgres has to be asked: MySQL can create a database on condition, and
/// SQLite has no server.
pub open spec fn spec_existence_query(backend: DbBackend) -> Option<Seq<char>> {
    match backend {
        DbBackend::Postgres => Some("SELECT 1 FROM pg_database WHERE datname = $1"@),
        _ => None,
    }
}

/// The statements that prepare the database `db_name` on a server of the
/// given kind, where `exists` says whether the database is there already.
/// A database that is there is left as it is.
pub open spec fn spec_statements(backend: DbBackend, db_name: Seq<char>, exists: bool) -> Seq<
    Seq<char>,
> {
    match backend {
        DbBackend::MySql => seq!["CREATE DATABASE IF NOT EXISTS `"@ + db_name + "`;"@],
        DbBackend::Postgres => if exists {
            Seq::empty()
        } else {
            seq!["CREATE DATABASE \""@ + db_name + "\";"@]
        },
        DbBackend::Sqlite => Seq::empty(),
    }
}

/// Whether `text` starts with `head`.
pub open spec fn begins_with(text: Seq<char>, head: Seq<char>) -> bool {
    head.len() <= text.len() && text.take(head.len() as int) == head
}

/// Setting up never deletes what a database holds. Every statement of every
/// plan creates a database; none drops or empties one. A database that is
/// known to be there gets no statement at all on Postgres, and on MySQL only
/// one that does nothing where the database exists. So a second setup
/// succeeds as the first did and keeps the data.
pub proof fn lemma_setup_keeps_what_is_there(backend: DbBackend, db_name: Seq<char>, exists: bool)
    ensures
        forall|i: int|
            0 <= i < spec_statements(backend, db_name, exists).len() ==> begins_with(
                #[trigger] spec_statements(backend, db_name, exists)[i],
                "CREATE DATABASE "@,
            ),
        backend is MySql ==> forall|i: int|
            0 <= i < spec_statements(backend, db_name, exists).len() ==> begins_with(
                #[trigger] spec_statements(backend, db_name, exists)[i],
                "CREATE DATABASE IF NOT EXISTS "@,
            ),
        exists && !(backend is MySql) ==> spec_statements(backend, db_name, exists).len() == 0,
{
    reveal_strlit("CREATE DATABASE ");
    reveal_strlit("CREATE DATABASE IF NOT EXISTS ");
    reveal_strlit("CREATE DATABASE IF NOT EXISTS `");
    reveal_strlit("CREATE DATABASE \"");
    let statements = spec_statements(backend, db_name, exists);
    assert forall|i: int| 0 <= i < statements.len() implies begins_with(
        #[trigger] statements[i],
        "CREATE DATABASE "@,
    ) by {
        assert(statements[i].take("CREATE DATABASE "@.len() as int) =~= "CREATE DATABASE "@);
    }
    if backend is MySql {
        assert forall|i: int| 0 <= i < statements.len() implies begins_with(
            #[trigger] statements[i],
            "CREATE DATABASE IF NOT EXISTS "@,
        ) by {
            assert(statements[i].take("CREATE DATABASE IF NOT EXISTS "@.len() as int)
                =~= "CREATE DATABASE IF NOT EXISTS "@);
        }
    }
}

/// The question that tells whether a database exists on a server of the
/// given kind, if the server has to be asked. The name of the database is
/// the one parameter of the question.
pub fn existence_query(backend: DbBackend) -> (r: Option<&'static str>)
    ensures
        r is Some <==> spec_existence_query(backend) is Some,
        r is Some ==> r->0@ == spec_existence_query(backend)->0,
{
    match backend {
        DbBackend::Postgres => Some("SELECT 1 FROM pg_database WHERE datname = $1"),
        _ => None,
    }
}

fn joined(head: &str, middle: &str, tail: &str) -> (r: String)
    ensures
        r@ == head@ + middle@ + tail@,
{
    let mut text = head.to_owned();
    text.append(middle);
    text.append(tail);
    text
}

/// What to do to a server of the given kind before the migrations run,
/// where `exists` says whether the database is there already.
///
/// MySQL creates the database unless it exists. Postgres creates it where
/// it was found missing. Both go on with a connection to the database
/// itself. SQLite needs nothing. No plan deletes anything.
pub fn setup_plan(backend: DbBackend, req_url: &str, db_name: &str, exists: bool) -> (r: SetupPlan)
    ensures
        r.statements@.map_values(|s: String| s@) == spec_statements(backend, db_name@, exists),
        match backend {
            DbBackend::Sqlite => r.reconnect_url is None,
            _ => r.reconnect_url is Some && r.reconnect_url->0@ == spec_database_url(
                req_url@,
                db_name@,
            ),
        },
{
    let mut statements: Vec<String> = Vec::new();
    let reconnect_url = match backend {
        DbBackend::MySql => {
            statements.push(joined("CREATE DATABASE IF NOT EXISTS `", db_name, "`;"));
            Some(joined(req_url, "/", db_name))
        },
        DbBackend::Postgres => {
            if !exists {
                statements.push(joined("CREATE DATABASE \"", db_name, "\";"));
            }
            Some(joined(req_url, "/", db_name))
        },
        DbBackend::Sqlite => None,
    };
    assert(statements@.map_values(|s: String| s@) =~= spec_statements(
        backend,
        db_name@,
        exists,
    ));
    SetupPlan { statements, reconnect_url }
}

} // verus!
