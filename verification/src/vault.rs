//! The content-addressed asset vault: what it stores for an asset, and the statements by which it
//! reads and writes the tables of its SQLite database.
use std::time::{Duration, SystemTime, SystemTimeError};
use vstd::prelude::*;
use vstd::string::*;

use crate::pack::{
    all_described, can_fail, content_hash, extension_text, hash_hex, hash_lines, hex_text,
    known_compressed, parse_hash, parsed_hash,
    plan_asset, plan_for, recipe_bytes, sha3_256, write_pack_error, write_recipe, Chunk, Codec,
    Plan, VaultError,
};

verus! {

/// The time that SQLite waits for a lock, in milliseconds.
pub const BUSY_TIMEOUT_MILLIS: u64 = 5000;

/// A point in time.
#[verifier::external_type_specification]
#[verifier::external_body]
pub struct ExSystemTime(SystemTime);

/// The failure of a clock that was set back.
#[verifier::external_type_specification]
#[verifier::external_body]
pub struct ExSystemTimeError(SystemTimeError);

/// `SystemTime::now` reads the clock of the machine, so nothing is known of its result.
pub assume_specification[ SystemTime::now ]() -> SystemTime
;

/// The time from an earlier point to a later one, where they are such.
pub uninterp spec fn time_between(later: SystemTime, earlier: SystemTime) -> Option<Duration>;

/// `SystemTime::duration_since` measures the time from an earlier point, and fails where that
/// point is the later one.
pub assume_specification[ SystemTime::duration_since ](
    later: &SystemTime,
    earlier: SystemTime,
) -> (r: Result<Duration, SystemTimeError>)
    ensures
        time_between(*later, earlier) == match r {
            Ok(elapsed) => Some(elapsed),
            Err(_) => None,
        },
;

/// The whole milliseconds of a duration.
pub uninterp spec fn whole_millis(duration: Duration) -> u128;

/// `Duration::as_millis` gives the whole milliseconds of a duration.
pub assume_specification[ Duration::as_millis ](duration: &Duration) -> (r: u128)
    ensures
        r == whole_millis(*duration),
;

/// Whether a point in time is the Unix epoch.
pub uninterp spec fn is_unix_epoch(time: SystemTime) -> bool;

/// `SystemTime::UNIX_EPOCH` is the Unix epoch, the beginning of the year 1970.
#[verifier::external_body]
fn unix_epoch() -> (r: SystemTime)
    ensures
        is_unix_epoch(r),
{
    SystemTime::UNIX_EPOCH
}

/// The milliseconds from a point in time to another, where the other is not the earlier one.
pub open spec fn elapsed_millis(now: SystemTime, since: SystemTime) -> Option<u128> {
    match time_between(now, since) {
        Some(elapsed) => Some(whole_millis(elapsed)),
        None => None,
    }
}

/// The timestamp for an elapsed time in milliseconds: its lowest 64 bits, or zero where the clock
/// stands before the epoch.
pub open spec fn timestamp(elapsed: Option<u128>) -> i64 {
    match elapsed {
        Some(millis) => millis as i64,
        None => 0,
    }
}

/// The timestamp for an elapsed time in milliseconds.
pub fn to_timestamp(elapsed: Option<u128>) -> (r: i64)
    ensures
        r == timestamp(elapsed),
{
    match elapsed {
        Some(millis) => #[verifier::truncate]
        (millis as i64),
        None => 0,
    }
}

/// A time that a clock can show, in milliseconds since the Unix epoch.
pub open spec fn shown_time(millis: i64) -> bool {
    exists|now: SystemTime, epoch: SystemTime|
        is_unix_epoch(epoch) && millis == timestamp(#[trigger] elapsed_millis(now, epoch))
}

/// The current time in milliseconds since the Unix epoch. Which time that is, is up to the clock
/// of the machine.
pub fn now_millis() -> (r: i64)
    ensures
        shown_time(r),
{
    let now = SystemTime::now();
    let epoch = unix_epoch();
    let r: i64 = match now.duration_since(epoch) {
        Ok(elapsed) => to_timestamp(Some(elapsed.as_millis())),
        Err(_) => to_timestamp(None),
    };
    assert(r == timestamp(elapsed_millis(now, epoch)));
    r
}

/// A character that a table name can hold.
pub open spec fn name_char(c: char) -> bool {
    'a' <= c <= 'z' || 'A' <= c <= 'Z' || '0' <= c <= '9' || c == '_'
}

/// A namespace as the vault uses it: every character that a table name cannot hold gives way to
/// an underscore, and an empty one becomes `default`.
pub open spec fn clean_name(raw: Seq<char>) -> Seq<char> {
    if raw.len() == 0 {
        "default"@
    } else {
        raw.map_values(
            |c: char|
                if name_char(c) {
                    c
                } else {
                    '_'
                },
        )
    }
}

/// Turns a namespace into a part of a table name.
pub fn sanitize_namespace(raw: &str) -> (r: String)
    ensures
        r@ == clean_name(raw@),
{
    let mut cleaned = String::new();
    for c in iter: raw.chars()
        invariant
            iter.seq() == raw@,
            cleaned@.len() == iter.index(),
            forall|i: int|
                0 <= i < iter.index() ==> cleaned@[i] == (if name_char(#[trigger] raw@[i]) {
                    raw@[i]
                } else {
                    '_'
                }),
    {
        if ('a' <= c && c <= 'z') || ('A' <= c && c <= 'Z') || ('0' <= c && c <= '9') || c == '_' {
            cleaned.push(c);
        } else {
            cleaned.push('_');
        }
    }
    if raw.unicode_len() == 0 {
        String::from_str("default")
    } else {
        assert(cleaned@ =~= clean_name(raw@));
        cleaned
    }
}

/// Three texts, one behind the other.
fn join3(a: &str, b: &str, c: &str) -> (r: String)
    ensures
        r@ == a@ + b@ + c@,
{
    let mut r = String::from_str(a);
    r.append(b);
    r.append(c);
    r
}

/// The statements that create the tables of a namespace.
pub open spec fn tables_sql(ns: Seq<char>) -> Seq<char> {
    "CREATE TABLE IF NOT EXISTS "@ + ns + "_asset_keys(
       key TEXT PRIMARY KEY,
       recipe_hash TEXT NOT NULL,
       file_hash TEXT NOT NULL,
       size INTEGER NOT NULL,
       updated_at INTEGER NOT NULL);
     CREATE INDEX IF NOT EXISTS idx_"@ + ns + "_asset_keys_recipe ON "@ + ns
        + "_asset_keys(recipe_hash);
     CREATE TABLE IF NOT EXISTS "@ + ns + "_snapshot(
       workspace TEXT PRIMARY KEY,
       sequence INTEGER NOT NULL,
       bytes BLOB NOT NULL,
       updated_at INTEGER NOT NULL);"@
}

/// The statements that create the tables of a namespace.
pub fn aux_schema(ns: &str) -> (r: String)
    ensures
        r@ == tables_sql(ns@),
{
    let mut r = join3(
        "CREATE TABLE IF NOT EXISTS ",
        ns,
        "_asset_keys(
       key TEXT PRIMARY KEY,
       recipe_hash TEXT NOT NULL,
       file_hash TEXT NOT NULL,
       size INTEGER NOT NULL,
       updated_at INTEGER NOT NULL);
     CREATE INDEX IF NOT EXISTS idx_",
    );
    r.append(ns);
    r.append("_asset_keys_recipe ON ");
    r.append(ns);
    r.append("_asset_keys(recipe_hash);
     CREATE TABLE IF NOT EXISTS ");
    r.append(ns);
    r.append("_snapshot(
       workspace TEXT PRIMARY KEY,
       sequence INTEGER NOT NULL,
       bytes BLOB NOT NULL,
       updated_at INTEGER NOT NULL);");
    r
}

/// The statement that sets the journal mode of a connection.
pub fn journal_statement() -> (r: String)
    ensures
        r@ == "PRAGMA journal_mode=WAL;"@,
{
    String::from_str("PRAGMA journal_mode=WAL;")
}

/// What an object of the store holds.
#[derive(Clone, Copy, Debug, PartialEq, Eq)]
pub enum ObjectKind {
    /// A piece of an asset.
    Chunk,
    /// The recipe of an asset.
    Recipe,
}

/// An object that goes into the store.
#[derive(Clone, Debug, PartialEq, Eq)]
pub struct ObjectRecord {
    pub hash: [u8; 32],
    pub kind: ObjectKind,
    pub decoded_len: u64,
    pub codec: Codec,
    pub stored_bytes: Vec<u8>,
}

/// What an object record stands for.
pub ghost struct ObjectView {
    pub hash: Seq<u8>,
    pub kind: ObjectKind,
    pub decoded_len: u64,
    pub codec: Codec,
    pub stored_bytes: Seq<u8>,
}

impl View for ObjectRecord {
    type V = ObjectView;

    open spec fn view(&self) -> ObjectView {
        ObjectView {
            hash: self.hash@,
            kind: self.kind,
            decoded_len: self.decoded_len,
            codec: self.codec,
            stored_bytes: self.stored_bytes@,
        }
    }
}

/// What a list of object records stands for.
pub open spec fn object_views(objects: Seq<ObjectRecord>) -> Seq<ObjectView> {
    objects.map_values(|object: ObjectRecord| object@)
}

/// A request to the tables of a namespace.
#[derive(Clone, Debug, PartialEq, Eq)]
pub enum Request {
    /// Enters an asset under a key, in place of one that is there.
    PutAsset { key: String, recipe_hash: String, file_hash: String, size: i64, updated_at: i64 },
    /// Asks for the recipe of the asset under a key.
    FindRecipe { key: String },
    /// Asks for the number of assets under a key.
    CountAssets { key: String },
    /// Removes the asset under a key.
    DeleteAsset { key: String },
    /// Asks for all keys.
    ListKeys,
    /// Enters a snapshot for a workspace, in place of one that is there.
    PutSnapshot { workspace: String, sequence: i64, bytes: Vec<u8>, updated_at: i64 },
    /// Asks for the snapshot of a workspace.
    FindSnapshot { workspace: String },
    /// Removes the snapshot of a workspace.
    DeleteSnapshot { workspace: String },
}

/// What a request stands for.
pub ghost enum RequestView {
    PutAsset {
        key: Seq<char>,
        recipe_hash: Seq<char>,
        file_hash: Seq<char>,
        size: i64,
        updated_at: i64,
    },
    FindRecipe { key: Seq<char> },
    CountAssets { key: Seq<char> },
    DeleteAsset { key: Seq<char> },
    ListKeys,
    PutSnapshot { workspace: Seq<char>, sequence: i64, bytes: Seq<u8>, updated_at: i64 },
    FindSnapshot { workspace: Seq<char> },
    DeleteSnapshot { workspace: Seq<char> },
}

impl View for Request {
    type V = RequestView;

    open spec fn view(&self) -> RequestView {
        match *self {
            Request::PutAsset { key, recipe_hash, file_hash, size, updated_at } =>
                RequestView::PutAsset {
                key: key@,
                recipe_hash: recipe_hash@,
                file_hash: file_hash@,
                size,
                updated_at,
            },
            Request::FindRecipe { key } => RequestView::FindRecipe { key: key@ },
            Request::CountAssets { key } => RequestView::CountAssets { key: key@ },
            Request::DeleteAsset { key } => RequestView::DeleteAsset { key: key@ },
            Request::ListKeys => RequestView::ListKeys,
            Request::PutSnapshot { workspace, sequence, bytes, updated_at } =>
                RequestView::PutSnapshot {
                workspace: workspace@,
                sequence,
                bytes: bytes@,
                updated_at,
            },
            Request::FindSnapshot { workspace } => RequestView::FindSnapshot {
                workspace: workspace@,
            },
            Request::DeleteSnapshot { workspace } => RequestView::DeleteSnapshot {
                workspace: workspace@,
            },
        }
    }
}

/// The value of a parameter of a statement.
#[derive(Clone, Debug, PartialEq, Eq)]
pub enum Param {
    Text(String),
    Integer(i64),
    Blob(Vec<u8>),
}

/// What a parameter stands for.
pub ghost enum ParamView {
    Text(Seq<char>),
    Integer(i64),
    Blob(Seq<u8>),
}

impl View for Param {
    type V = ParamView;

    open spec fn view(&self) -> ParamView {
        match *self {
            Param::Text(text) => ParamView::Text(text@),
            Param::Integer(n) => ParamView::Integer(n),
            Param::Blob(bytes) => ParamView::Blob(bytes@),
        }
    }
}

/// What a list of parameters stands for.
pub open spec fn param_views(params: Seq<Param>) -> Seq<ParamView> {
    params.map_values(|param: Param| param@)
}

/// A statement of SQL with the values of its parameters, the first of them numbered one.
#[derive(Clone, Debug, PartialEq, Eq)]
pub struct Statement {
    pub sql: String,
    pub params: Vec<Param>,
}

/// What a statement stands for.
pub ghost struct StatementView {
    pub sql: Seq<char>,
    pub params: Seq<ParamView>,
}

impl View for Statement {
    type V = StatementView;

    open spec fn view(&self) -> StatementView {
        StatementView { sql: self.sql@, params: param_views(self.params@) }
    }
}

/// The statement by which a request reaches the tables of a namespace.
pub open spec fn request_statement(ns: Seq<char>, request: RequestView) -> StatementView {
    match request {
        RequestView::PutAsset { key, recipe_hash, file_hash, size, updated_at } => StatementView {
            sql: "INSERT INTO "@ + ns
                + "_asset_keys(key, recipe_hash, file_hash, size, updated_at)
           VALUES(?1, ?2, ?3, ?4, ?5)
           ON CONFLICT(key) DO UPDATE SET
             recipe_hash=?2, file_hash=?3, size=?4, updated_at=?5"@,
            params: seq![
                ParamView::Text(key),
                ParamView::Text(recipe_hash),
                ParamView::Text(file_hash),
                ParamView::Integer(size),
                ParamView::Integer(updated_at),
            ],
        },
        RequestView::FindRecipe { key } => StatementView {
            sql: "SELECT recipe_hash FROM "@ + ns + "_asset_keys WHERE key=?1"@,
            params: seq![ParamView::Text(key)],
        },
        RequestView::CountAssets { key } => StatementView {
            sql: "SELECT COUNT(*) FROM "@ + ns + "_asset_keys WHERE key=?1"@,
            params: seq![ParamView::Text(key)],
        },
        RequestView::DeleteAsset { key } => StatementView {
            sql: "DELETE FROM "@ + ns + "_asset_keys WHERE key=?1"@,
            params: seq![ParamView::Text(key)],
        },
        RequestView::ListKeys => StatementView {
            sql: "SELECT key FROM "@ + ns + "_asset_keys ORDER BY key"@,
            params: Seq::empty(),
        },
        RequestView::PutSnapshot { workspace, sequence, bytes, updated_at } => StatementView {
            sql: "INSERT INTO "@ + ns
                + "_snapshot(workspace, sequence, bytes, updated_at)
           VALUES(?1, ?2, ?3, ?4)
           ON CONFLICT(workspace) DO UPDATE SET sequence=?2, bytes=?3, updated_at=?4"@,
            params: seq![
                ParamView::Text(workspace),
                ParamView::Integer(sequence),
                ParamView::Blob(bytes),
                ParamView::Integer(updated_at),
            ],
        },
        RequestView::FindSnapshot { workspace } => StatementView {
            sql: "SELECT bytes FROM "@ + ns + "_snapshot WHERE workspace=?1"@,
            params: seq![ParamView::Text(workspace)],
        },
        RequestView::DeleteSnapshot { workspace } => StatementView {
            sql: "DELETE FROM "@ + ns + "_snapshot WHERE workspace=?1"@,
            params: seq![ParamView::Text(workspace)],
        },
    }
}

/// A statement with one parameter, a text.
fn keyed(sql: String, key: String) -> (r: Statement)
    ensures
        r@ == (StatementView { sql: sql@, params: seq![ParamView::Text(key@)] }),
{
    let r = Statement { sql, params: vec![Param::Text(key)] };
    assert(r@.params =~= seq![ParamView::Text(key@)]);
    r
}

/// Everything that is stored for an asset.
#[derive(Clone, Debug, PartialEq, Eq)]
pub struct AssetWrite {
    /// The SHA3-256 content hash of the asset, in hexadecimal notation.
    pub content_hash: String,
    /// The objects that hold the pieces of the asset.
    pub objects: Vec<ObjectRecord>,
    /// The hash of the recipe.
    pub recipe_hash: [u8; 32],
    /// The recipe, which is stored as it is.
    pub recipe: Vec<u8>,
    /// The request that enters the asset under its key.
    pub request: Request,
}

/// The object that holds the piece of a chunk.
pub open spec fn chunk_object(chunk: Chunk) -> ObjectView {
    ObjectView {
        hash: chunk.hash@,
        kind: ObjectKind::Chunk,
        decoded_len: chunk.raw_len as u64,
        codec: chunk.codec,
        stored_bytes: match chunk.payload {
            Some(payload) => payload@,
            None => Seq::empty(),
        },
    }
}

/// The objects that hold the pieces of chunks.
pub open spec fn chunk_objects(chunks: Seq<Chunk>) -> Seq<ObjectView> {
    chunks.map_values(|chunk: Chunk| chunk_object(chunk))
}

/// The lines of a recipe for chunks.
pub open spec fn chunk_lines(chunks: Seq<Chunk>) -> Seq<(Seq<u8>, u32)> {
    chunks.map_values(|chunk: Chunk| (chunk.hash@, chunk.raw_len))
}

/// The recipe of an asset that is cut by a plan.
pub open spec fn plan_recipe(plan: Plan, file_hash: Seq<u8>) -> Seq<u8> {
    recipe_bytes(
        plan.original_size,
        chunk_lines(plan.chunks@),
        file_hash,
        plan.transform_id,
        plan.transform_version,
    )
}

/// What is stored for an asset of a size and a content hash that is cut by a plan.
pub open spec fn writes(
    write: AssetWrite,
    key: Seq<char>,
    size: nat,
    file_hash: Seq<u8>,
    plan: Plan,
    updated_at: i64,
) -> bool {
    &&& file_hash.len() == 32
    &&& write.content_hash@ == hex_text(file_hash)
    &&& object_views(write.objects@) == chunk_objects(plan.chunks@)
    &&& write.recipe@ == plan_recipe(plan, file_hash)
    &&& write.recipe_hash@ == sha3_256(write.recipe@)
    &&& write.request@ == RequestView::PutAsset {
        key,
        recipe_hash: hex_text(write.recipe_hash@),
        file_hash: hex_text(file_hash),
        size: size as i64,
        updated_at,
    }
}

/// Puts together what is stored for an asset of a size and a content hash that is cut by a plan.
pub fn write_plan(key: String, size: usize, file_hash: [u8; 32], plan: Plan, updated_at: i64) -> (r:
    AssetWrite)
    ensures
        writes(r, key@, size as nat, file_hash@, plan, updated_at),
{
    let ghost chunks = plan.chunks@;
    let mut lines: Vec<([u8; 32], u32)> = Vec::new();
    let mut objects: Vec<ObjectRecord> = Vec::new();
    for chunk in iter: plan.chunks
        invariant
            iter.seq() == chunks,
            lines@.len() == iter.index(),
            objects@.len() == iter.index(),
            forall|i: int|
                0 <= i < iter.index() ==> (#[trigger] lines@[i]).0@ == chunks[i].hash@
                    && lines@[i].1 == chunks[i].raw_len,
            forall|i: int|
                0 <= i < iter.index() ==> (#[trigger] objects@[i])@ == chunk_object(chunks[i]),
    {
        lines.push((chunk.hash, chunk.raw_len));
        let stored_bytes = match chunk.payload {
            Some(payload) => payload,
            None => Vec::new(),
        };
        objects.push(
            ObjectRecord {
                hash: chunk.hash,
                kind: ObjectKind::Chunk,
                decoded_len: chunk.raw_len as u64,
                codec: chunk.codec,
                stored_bytes,
            },
        );
    }
    assert(hash_lines(lines@) =~= chunk_lines(chunks));
    assert(object_views(objects@) =~= chunk_objects(chunks));
    let recipe = write_recipe(
        plan.original_size,
        lines,
        file_hash,
        plan.transform_id,
        plan.transform_version,
    );
    let recipe_hash = content_hash(&recipe);
    let request = Request::PutAsset {
        key,
        recipe_hash: hash_hex(&recipe_hash),
        file_hash: hash_hex(&file_hash),
        size: #[verifier::truncate]
        (size as i64),
        updated_at,
    };
    AssetWrite { content_hash: hash_hex(&file_hash), objects, recipe_hash, recipe, request }
}

/// SQLite-backed content-addressed vault. It shares one database file with the host application;
/// the names of all its tables begin with its namespace and an underscore.
pub struct SqliteVault {
    namespace: String,
}

impl SqliteVault {
    /// The namespace of the vault.
    pub closed spec fn ns(&self) -> Seq<char> {
        self.namespace@
    }

    /// A vault for a namespace, which is `default` where none is given.
    pub fn new(namespace: Option<String>) -> (r: SqliteVault)
        ensures
            r.ns() == clean_name(
                match namespace {
                    Some(raw) => raw@,
                    None => "default"@,
                },
            ),
    {
        let namespace = match namespace {
            Some(raw) => sanitize_namespace(raw.as_str()),
            None => sanitize_namespace("default"),
        };
        SqliteVault { namespace }
    }

    /// The namespace of the vault.
    pub fn namespace(&self) -> (r: String)
        ensures
            r@ == self.ns(),
    {
        self.namespace.clone()
    }

    /// The statements that create the tables of the vault.
    pub fn schema(&self) -> (r: String)
        ensures
            r@ == tables_sql(self.ns()),
    {
        aux_schema(self.namespace.as_str())
    }

    /// The statement by which a request reaches the tables of the vault.
    pub fn statement(&self, request: Request) -> (r: Statement)
        ensures
            r@ == request_statement(self.ns(), request@),
    {
        let ns = self.namespace.as_str();
        match request {
            Request::PutAsset { key, recipe_hash, file_hash, size, updated_at } => {
                let sql = join3(
                    "INSERT INTO ",
                    ns,
                    "_asset_keys(key, recipe_hash, file_hash, size, updated_at)
           VALUES(?1, ?2, ?3, ?4, ?5)
           ON CONFLICT(key) DO UPDATE SET
             recipe_hash=?2, file_hash=?3, size=?4, updated_at=?5",
                );
                let params = vec![
                    Param::Text(key),
                    Param::Text(recipe_hash),
                    Param::Text(file_hash),
                    Param::Integer(size),
                    Param::Integer(updated_at),
                ];
                let r = Statement { sql, params };
                assert(r@.params =~= request_statement(ns@, request@).params);
                r
            },
            Request::FindRecipe { key } => keyed(
                join3("SELECT recipe_hash FROM ", ns, "_asset_keys WHERE key=?1"),
                key,
            ),
            Request::CountAssets { key } => keyed(
                join3("SELECT COUNT(*) FROM ", ns, "_asset_keys WHERE key=?1"),
                key,
            ),
            Request::DeleteAsset { key } => keyed(
                join3("DELETE FROM ", ns, "_asset_keys WHERE key=?1"),
                key,
            ),
            Request::ListKeys => {
                let sql = join3("SELECT key FROM ", ns, "_asset_keys ORDER BY key");
                let r = Statement { sql, params: Vec::new() };
                assert(r@.params =~= Seq::<ParamView>::empty());
                r
            },
            Request::PutSnapshot { workspace, sequence, bytes, updated_at } => {
                let sql = join3(
                    "INSERT INTO ",
                    ns,
                    "_snapshot(workspace, sequence, bytes, updated_at)
           VALUES(?1, ?2, ?3, ?4)
           ON CONFLICT(workspace) DO UPDATE SET sequence=?2, bytes=?3, updated_at=?4",
                );
                let params = vec![
                    Param::Text(workspace),
                    Param::Integer(sequence),
                    Param::Blob(bytes),
                    Param::Integer(updated_at),
                ];
                let r = Statement { sql, params };
                assert(r@.params =~= request_statement(ns@, request@).params);
                r
            },
            Request::FindSnapshot { workspace } => keyed(
                join3("SELECT bytes FROM ", ns, "_snapshot WHERE workspace=?1"),
                workspace,
            ),
            Request::DeleteSnapshot { workspace } => keyed(
                join3("DELETE FROM ", ns, "_snapshot WHERE workspace=?1"),
                workspace,
            ),
        }
    }

    /// Packs an asset for a key. The extension tells the packer what kind of file it is. What is
    /// stored follows a plan for the data and carries the time of the call. How each piece is
    /// stored and whether the packer fails is left open, except for empty data and data that is
    /// compressed already.
    pub fn put_asset(&self, key: String, data: Vec<u8>, extension: Option<String>) -> (r: Result<
        AssetWrite,
        VaultError,
    >)
        ensures
            match r {
                Ok(write) => exists|plan: Plan, updated_at: i64|
                    {
                        &&& plan_for(plan, data@, extension_text(extension))
                        &&& all_described(plan.chunks@)
                        &&& shown_time(updated_at)
                        &&& #[trigger] writes(
                            write,
                            key@,
                            data@.len(),
                            sha3_256(data@),
                            plan,
                            updated_at,
                        )
                    },
                Err(e) => {
                    &&& data@.len() > 0 && !known_compressed(extension_text(extension))
                    &&& can_fail(data@, extension_text(extension), e.text())
                },
            },
    {
        let size = data.len();
        let file_hash = content_hash(&data);
        match plan_asset(data, extension, size as u64, file_hash) {
            Err(e) => Err(VaultError::Pack(write_pack_error(&e))),
            Ok(plan) => {
                let updated_at: i64 = now_millis();
                let write = write_plan(key, size, file_hash, plan, updated_at);
                assert(writes(write, key@, data@.len(), sha3_256(data@), plan, updated_at));
                Ok(write)
            },
        }
    }

    /// Asks for the recipe of the asset under a key; [`recipe_reply`] reads the answer.
    pub fn get_asset(&self, key: String) -> (r: Request)
        ensures
            r@ == (RequestView::FindRecipe { key: key@ }),
    {
        Request::FindRecipe { key }
    }

    /// Asks whether there is an asset under a key; [`count_reply`] reads the answer.
    pub fn has_asset(&self, key: String) -> (r: Request)
        ensures
            r@ == (RequestView::CountAssets { key: key@ }),
    {
        Request::CountAssets { key }
    }

    /// Removes the asset under a key; [`change_reply`] reads the answer.
    pub fn delete_asset(&self, key: String) -> (r: Request)
        ensures
            r@ == (RequestView::DeleteAsset { key: key@ }),
    {
        Request::DeleteAsset { key }
    }

    /// Asks for all stored keys (useful for listing, and for the removal of what no key leads to).
    pub fn list_assets(&self) -> (r: Request)
        ensures
            r@ == RequestView::ListKeys,
    {
        Request::ListKeys
    }

    /// Persists an index checkpoint for a workspace.
    pub fn put_snapshot(&self, workspace: String, sequence: i64, bytes: Vec<u8>) -> (r: Request)
        ensures
            exists|updated_at: i64|
                shown_time(updated_at) && r@ == (#[trigger] snapshot_entry(
                    workspace@,
                    sequence,
                    bytes@,
                    updated_at,
                )),
    {
        let updated_at: i64 = now_millis();
        let r = Request::PutSnapshot { workspace, sequence, bytes, updated_at };
        assert(r@ == snapshot_entry(workspace@, sequence, bytes@, updated_at));
        r
    }

    /// Asks for the snapshot of a workspace.
    pub fn get_snapshot(&self, workspace: String) -> (r: Request)
        ensures
            r@ == (RequestView::FindSnapshot { workspace: workspace@ }),
    {
        Request::FindSnapshot { workspace }
    }

    /// Removes the snapshot of a workspace; [`change_reply`] reads the answer.
    pub fn delete_snapshot(&self, workspace: String) -> (r: Request)
        ensures
            r@ == (RequestView::DeleteSnapshot { workspace: workspace@ }),
    {
        Request::DeleteSnapshot { workspace }
    }
}

/// The request that enters a snapshot for a workspace.
pub open spec fn snapshot_entry(
    workspace: Seq<char>,
    sequence: i64,
    bytes: Seq<u8>,
    updated_at: i64,
) -> RequestView {
    RequestView::PutSnapshot { workspace, sequence, bytes, updated_at }
}

/// Reads the answer to a request for a recipe: the hash of the recipe, where there is one.
pub fn recipe_reply(reply: Option<String>) -> (r: Result<Option<[u8; 32]>, VaultError>)
    ensures
        match (reply, r) {
            (None, Ok(None)) => true,
            (Some(text), Ok(Some(hash))) => parsed_hash(text@) == Ok::<_, Seq<char>>(hash@),
            (Some(text), Err(e)) => parsed_hash(text@) == Err::<Seq<u8>, _>(e.text()),
            _ => false,
        },
{
    match reply {
        None => Ok(None),
        Some(text) => match parse_hash(text.as_str()) {
            Ok(hash) => Ok(Some(hash)),
            Err(e) => Err(VaultError::Pack(write_pack_error(&e))),
        },
    }
}

/// Reads the answer to a request for a number of assets: whether there is one.
pub fn count_reply(count: i64) -> (r: bool)
    ensures
        r == (count > 0),
{
    count > 0
}

/// Reads the answer to a request that removes a row: whether there was one.
pub fn change_reply(changed: usize) -> (r: bool)
    ensures
        r == (changed > 0),
{
    changed > 0
}

} // verus!
