use std::time::Duration;

use assetpack_core::{
    FileReadLimits, FileReader, Hash32, RusqliteStore, TransformDecoderRegistry,
};
use assetvault::pack::{Chunk, Codec, Plan};
use assetvault::vault::{
    aux_schema, change_reply, count_reply, journal_statement, now_millis, recipe_reply,
    sanitize_namespace, to_timestamp, write_plan, AssetWrite, ObjectKind, Param, Request,
    SqliteVault, Statement, BUSY_TIMEOUT_MILLIS,
};
use rusqlite::types::Value;
use rusqlite::{params_from_iter, Connection, OptionalExtension};

/// A vault on a database.
struct Database {
    conn: Connection,
    vault: SqliteVault,
}

fn values(statement: &Statement) -> Vec<Value> {
    statement
        .params
        .iter()
        .map(|param| match param {
            Param::Text(text) => Value::Text(text.clone()),
            Param::Integer(n) => Value::Integer(*n),
            Param::Blob(bytes) => Value::Blob(bytes.clone()),
        })
        .collect()
}

impl Database {
    fn open(path: &str, namespace: Option<&str>) -> Database {
        let conn = Connection::open(path).unwrap();
        conn.execute_batch(&journal_statement()).unwrap();
        conn.busy_timeout(Duration::from_millis(BUSY_TIMEOUT_MILLIS)).unwrap();
        let vault = SqliteVault::new(namespace.map(|s| s.to_string()));
        RusqliteStore::from_connection_with_namespace(&conn, vault.namespace()).unwrap();
        conn.execute_batch(&vault.schema()).unwrap();
        Database { conn, vault }
    }

    fn store(&self) -> RusqliteStore<'_> {
        RusqliteStore::from_connection_with_namespace(&self.conn, self.vault.namespace()).unwrap()
    }

    fn execute(&self, request: Request) -> usize {
        let statement = self.vault.statement(request);
        self.conn.execute(&statement.sql, params_from_iter(values(&statement))).unwrap()
    }

    fn find<T: rusqlite::types::FromSql>(&self, request: Request) -> Option<T> {
        let statement = self.vault.statement(request);
        self.conn
            .query_row(&statement.sql, params_from_iter(values(&statement)), |row| row.get(0))
            .optional()
            .unwrap()
    }

    fn put(&self, key: &str, data: &[u8], extension: Option<&str>) -> String {
        let extension = extension.map(|s| s.to_string());
        let write = self.vault.put_asset(key.to_string(), data.to_vec(), extension).unwrap();
        self.store().put_objects_batch(&objects(&write)).unwrap();
        self.store()
            .put_recipe(Hash32(write.recipe_hash), &write.recipe, assetpack_core::Codec::Raw)
            .unwrap();
        self.execute(write.request);
        write.content_hash
    }

    fn get(&self, key: &str) -> Option<Vec<u8>> {
        let reply: Option<String> = self.find(self.vault.get_asset(key.to_string()));
        let hash = recipe_reply(reply).unwrap()?;
        let store = self.store();
        let decoders = TransformDecoderRegistry::default();
        let reader = FileReader::new(&store, &decoders, FileReadLimits::default());
        Some(reader.read_file(Hash32(hash)).unwrap())
    }

    fn has(&self, key: &str) -> bool {
        count_reply(self.find(self.vault.has_asset(key.to_string())).unwrap())
    }

    fn delete(&self, key: &str) -> bool {
        change_reply(self.execute(self.vault.delete_asset(key.to_string())))
    }

    fn list(&self) -> Vec<String> {
        let statement = self.vault.statement(self.vault.list_assets());
        let mut prepared = self.conn.prepare(&statement.sql).unwrap();
        let rows = prepared
            .query_map(params_from_iter(values(&statement)), |row| row.get::<_, String>(0))
            .unwrap();
        rows.map(|row| row.unwrap()).collect()
    }
}

fn objects(write: &AssetWrite) -> Vec<assetpack_core::ObjectRecord> {
    write
        .objects
        .iter()
        .map(|object| assetpack_core::ObjectRecord {
            hash: Hash32(object.hash),
            kind: match object.kind {
                ObjectKind::Chunk => assetpack_core::ObjectKind::Chunk,
                ObjectKind::Recipe => assetpack_core::ObjectKind::Recipe,
            },
            decoded_len: object.decoded_len,
            codec: match object.codec {
                Codec::Raw => assetpack_core::Codec::Raw,
                Codec::Zstd => assetpack_core::Codec::Zstd,
                Codec::Brotli => assetpack_core::Codec::Brotli,
            },
            stored_bytes: object.stored_bytes.clone(),
        })
        .collect()
}

fn noise(n: usize) -> Vec<u8> {
    let mut state: u32 = 12345;
    (0..n)
        .map(|_| {
            state = state.wrapping_mul(1664525).wrapping_add(1013904223);
            (state >> 24) as u8
        })
        .collect()
}

#[test]
fn asset_and_snapshot_roundtrip() {
    let dir = tempfile::tempdir().unwrap();
    let db = dir.path().join("test.db");
    let vault = Database::open(&db.to_string_lossy(), Some("t"));

    let hash = vault.put("k", b"hello world", None);
    assert_eq!(hash.len(), 64, "sha3-256 hex length");

    let got = vault.get("k").unwrap();
    assert_eq!(got, b"hello world");
    assert!(vault.has("k"));

    vault.execute(vault.vault.put_snapshot("ws".into(), 7, vec![1u8, 2, 3]));
    let bytes: Option<Vec<u8>> = vault.find(vault.vault.get_snapshot("ws".into()));
    assert_eq!(bytes.unwrap(), vec![1u8, 2, 3]);

    assert!(vault.delete("k"));
    assert!(vault.get("k").is_none());
}

#[test]
fn large_assets_are_cut_and_read_back() {
    let db = Database::open(":memory:", None);
    let data = noise(600_000);
    let write = db.vault.put_asset("k".into(), data.clone(), None).unwrap();
    assert!(write.objects.len() > 1);
    let total: u64 = write.objects.iter().map(|object| object.decoded_len).sum();
    assert_eq!(total, 600_000);
    db.put("k", &data, Some("png"));
    assert_eq!(db.get("k").unwrap(), data);
    let text = b"the quick brown fox ".repeat(5000);
    db.put("text", &text, None);
    assert_eq!(db.get("text").unwrap(), text);
    assert_eq!(db.get("k").unwrap(), data);
}

#[test]
fn empty_assets_have_no_pieces() {
    let db = Database::open(":memory:", None);
    let write = db.vault.put_asset("k".into(), vec![], None).unwrap();
    assert_eq!(write.objects.len(), 0);
    assert_eq!(write.recipe.len(), 49);
    assert_eq!(
        write.content_hash,
        "a7ffc6f8bf1ed76651c14756a061d662f580ff4de43b49fa82d80a4b80f8434a"
    );
    db.put("k", b"", None);
    assert_eq!(db.get("k").unwrap(), b"");
}

#[test]
fn compressed_files_are_stored_as_they_are() {
    let vault = SqliteVault::new(None);
    let data = b"abc ".repeat(4000);
    let plain = vault.put_asset("k".into(), data.clone(), None).unwrap();
    assert!(plain.objects.iter().any(|object| object.codec != Codec::Raw));
    let raw = vault.put_asset("k".into(), data.clone(), Some("PNG".to_string())).unwrap();
    assert!(raw.objects.iter().all(|object| object.codec == Codec::Raw));
    let stored: Vec<u8> =
        raw.objects.iter().flat_map(|object| object.stored_bytes.clone()).collect();
    assert_eq!(stored, data);
    assert_eq!(plain.content_hash, raw.content_hash);
    assert_eq!(plain.recipe, raw.recipe);
}

#[test]
fn the_content_hash_is_that_of_the_bytes() {
    let vault = SqliteVault::new(None);
    let write = vault.put_asset("a".into(), b"hello".to_vec(), None).unwrap();
    assert_eq!(
        write.content_hash,
        "3338be694f50c5f338814986cdf0686453a888b84f424d792af4b9202398f392"
    );
    let other = vault.put_asset("b".into(), b"hello".to_vec(), None).unwrap();
    assert_eq!(other.content_hash, write.content_hash);
    assert_eq!(other.objects, write.objects);
    assert_eq!(other.recipe_hash, write.recipe_hash);
}

#[test]
fn a_plan_is_written_down() {
    let chunk = |n: u8, len: u32, payload: Option<Vec<u8>>| Chunk {
        hash: [n; 32],
        raw_len: len,
        codec: Codec::Zstd,
        payload,
    };
    let plan = Plan {
        transform_id: 0,
        transform_version: 0,
        original_size: 0x0102,
        chunks: vec![chunk(1, 0x0100, Some(vec![9, 8])), chunk(2, 2, None)],
    };
    let write = write_plan("k".to_string(), 258, [0xab; 32], plan, -5);
    let mut recipe: Vec<u8> = vec![3, 2, 1, 0, 0, 0, 0, 0, 0];
    recipe.extend([0xab; 32]);
    recipe.extend([0, 0, 0, 0, 2, 0, 0, 0]);
    recipe.extend([1; 32]);
    recipe.extend([0, 1, 0, 0]);
    recipe.extend([2; 32]);
    recipe.extend([2, 0, 0, 0]);
    assert_eq!(write.recipe, recipe);
    assert_eq!(write.recipe_hash, Hash32::sha3_256(&recipe).0);
    assert_eq!(write.content_hash, "ab".repeat(32));
    assert_eq!(write.objects.len(), 2);
    assert_eq!(write.objects[0].hash, [1; 32]);
    assert_eq!(write.objects[0].kind, ObjectKind::Chunk);
    assert_eq!(write.objects[0].decoded_len, 256);
    assert_eq!(write.objects[0].codec, Codec::Zstd);
    assert_eq!(write.objects[0].stored_bytes, vec![9, 8]);
    assert!(write.objects[1].stored_bytes.is_empty());
    assert_eq!(
        write.request,
        Request::PutAsset {
            key: "k".to_string(),
            recipe_hash: Hash32(write.recipe_hash).to_hex(),
            file_hash: "ab".repeat(32),
            size: 258,
            updated_at: -5,
        }
    );
}

#[test]
fn a_later_asset_replaces_an_earlier_one() {
    let db = Database::open(":memory:", None);
    db.put("k", b"one", None);
    db.put("other", b"three", None);
    db.put("k", b"two", None);
    assert_eq!(db.get("k").unwrap(), b"two");
    assert_eq!(db.get("other").unwrap(), b"three");
    assert_eq!(db.list(), vec!["k", "other"]);
}

#[test]
fn deleted_assets_are_gone() {
    let db = Database::open(":memory:", None);
    db.put("k", b"one", None);
    db.put("other", b"one", None);
    assert!(db.delete("k"));
    assert!(!db.delete("k"));
    assert!(!db.has("k"));
    assert_eq!(db.get("other").unwrap(), b"one");
}

#[test]
fn storing_again_adds_no_object() {
    let db = Database::open(":memory:", None);
    db.put("k", b"one", None);
    let count = "SELECT COUNT(*) FROM default_objects";
    let before: i64 = db.conn.query_row(count, [], |row| row.get(0)).unwrap();
    db.put("other", b"one", None);
    let after: i64 = db.conn.query_row(count, [], |row| row.get(0)).unwrap();
    assert_eq!(before, after);
    assert_eq!(before, 2);
}

#[test]
fn keys_are_listed_in_order() {
    let db = Database::open(":memory:", None);
    assert!(db.list().is_empty());
    for key in ["b", "a", "ab", "B", "é"] {
        db.put(key, key.as_bytes(), None);
    }
    assert_eq!(db.list(), vec!["B", "a", "ab", "b", "é"]);
}

#[test]
fn snapshots_are_replaced_and_deleted() {
    let db = Database::open(":memory:", None);
    db.execute(db.vault.put_snapshot("ws".into(), 1, vec![1]));
    db.execute(db.vault.put_snapshot("ws".into(), 2, vec![2, 2]));
    db.execute(db.vault.put_snapshot("other".into(), 3, vec![]));
    let bytes: Option<Vec<u8>> = db.find(db.vault.get_snapshot("ws".into()));
    assert_eq!(bytes.unwrap(), vec![2, 2]);
    assert!(change_reply(db.execute(db.vault.delete_snapshot("ws".into()))));
    assert!(!change_reply(db.execute(db.vault.delete_snapshot("ws".into()))));
    let bytes: Option<Vec<u8>> = db.find(db.vault.get_snapshot("ws".into()));
    assert!(bytes.is_none());
    let bytes: Option<Vec<u8>> = db.find(db.vault.get_snapshot("other".into()));
    assert_eq!(bytes.unwrap(), Vec::<u8>::new());
}

#[test]
fn keys_do_not_become_statements() {
    let db = Database::open(":memory:", None);
    let key = "x'); DROP TABLE default_asset_keys; --";
    db.put(key, b"one", None);
    assert_eq!(db.get(key).unwrap(), b"one");
    assert_eq!(db.list(), vec![key]);
}

#[test]
fn namespaces_are_apart() {
    let dir = tempfile::tempdir().unwrap();
    let path = dir.path().join("shared.db").to_string_lossy().into_owned();
    let first = Database::open(&path, Some("one"));
    let second = Database::open(&path, Some("two"));
    first.put("k", b"one", None);
    assert!(!second.has("k"));
    second.put("k", b"two", None);
    assert_eq!(first.get("k").unwrap(), b"one");
    assert_eq!(second.get("k").unwrap(), b"two");
}

#[test]
fn recipes_are_read_in_hexadecimal_notation() {
    let text = "00ff".repeat(16);
    let mut hash = [0u8; 32];
    for i in 0..16 {
        hash[2 * i + 1] = 255;
    }
    assert_eq!(recipe_reply(Some(text.clone())).unwrap(), Some(hash));
    assert_eq!(recipe_reply(Some(text.to_uppercase())).unwrap(), Some(hash));
    assert_eq!(recipe_reply(None).unwrap(), None);
    let fault = recipe_reply(Some("xyz".to_string())).unwrap_err();
    assert_eq!(fault.message(), "invalid hex encoding: xyz");
    let fault = recipe_reply(Some("00ff0".to_string())).unwrap_err();
    assert_eq!(fault.message(), "invalid hex encoding: 00ff0");
    let fault = recipe_reply(Some("00ff".to_string())).unwrap_err();
    assert_eq!(fault.message(), "invalid hash length: 2, expected 32 bytes");
}

#[test]
fn replies_are_read() {
    assert!(count_reply(1));
    assert!(!count_reply(0));
    assert!(change_reply(2));
    assert!(!change_reply(0));
}

#[test]
fn namespaces_are_cleaned() {
    assert_eq!(sanitize_namespace("iv_main"), "iv_main");
    assert_eq!(sanitize_namespace("a b;c-9Z"), "a_b_c_9Z");
    assert_eq!(sanitize_namespace("é"), "_");
    assert_eq!(sanitize_namespace(""), "default");
    assert_eq!(SqliteVault::new(None).namespace(), "default");
    assert_eq!(SqliteVault::new(Some("".to_string())).namespace(), "default");
    assert_eq!(SqliteVault::new(Some("x.y".to_string())).namespace(), "x_y");
}

#[test]
fn tables_are_named_after_the_namespace() {
    assert_eq!(
        aux_schema("t"),
        "CREATE TABLE IF NOT EXISTS t_asset_keys(
       key TEXT PRIMARY KEY,
       recipe_hash TEXT NOT NULL,
       file_hash TEXT NOT NULL,
       size INTEGER NOT NULL,
       updated_at INTEGER NOT NULL);
     CREATE INDEX IF NOT EXISTS idx_t_asset_keys_recipe ON t_asset_keys(recipe_hash);
     CREATE TABLE IF NOT EXISTS t_snapshot(
       workspace TEXT PRIMARY KEY,
       sequence INTEGER NOT NULL,
       bytes BLOB NOT NULL,
       updated_at INTEGER NOT NULL);"
    );
    let vault = SqliteVault::new(Some("t".to_string()));
    assert_eq!(vault.schema(), aux_schema("t"));
    let statement = vault.statement(vault.get_asset("k".to_string()));
    assert_eq!(statement.sql, "SELECT recipe_hash FROM t_asset_keys WHERE key=?1");
    assert_eq!(statement.params, vec![Param::Text("k".to_string())]);
}

#[test]
fn times_are_milliseconds_since_the_epoch() {
    assert_eq!(to_timestamp(None), 0);
    assert_eq!(to_timestamp(Some(1_700_000_000_123)), 1_700_000_000_123);
    assert_eq!(to_timestamp(Some(u128::MAX)), -1);
    let first = now_millis();
    assert!(first > 1_600_000_000_000);
    assert!(now_millis() >= first - 1000);
    match SqliteVault::new(None).put_snapshot("ws".to_string(), 7, vec![1]) {
        Request::PutSnapshot { workspace, sequence, bytes, updated_at } => {
            assert_eq!(workspace, "ws");
            assert_eq!(sequence, 7);
            assert_eq!(bytes, vec![1]);
            assert!(updated_at >= first - 1000);
        }
        _ => panic!("not a snapshot"),
    }
}

#[test]
fn an_index_snapshot_is_kept_in_the_vault() {
    let mut index = assetvault::index::SearchIndex::new(None).unwrap();
    index.upsert("a".into(), "{\"content\":\"river\"}".into()).unwrap();
    let db = Database::open(":memory:", Some("iv_main"));
    let snapshot = index.checkpoint().unwrap();
    db.execute(db.vault.put_snapshot("default".into(), index.sequence(), snapshot));
    let bytes: Option<Vec<u8>> = db.find(db.vault.get_snapshot("default".into()));
    let restored =
        assetvault::index::SearchIndex::from_checkpoint(None, bytes.unwrap()).unwrap();
    assert_eq!(restored.len(), 1);
    assert_eq!(restored.sequence(), 1);
}

#[test]
fn a_vault_that_is_opened_again_finds_all() {
    let dir = tempfile::tempdir().unwrap();
    let path = dir.path().join("again.db").to_string_lossy().into_owned();
    {
        let db = Database::open(&path, Some("a-b"));
        db.put("k", b"one", None);
        db.execute(db.vault.put_snapshot("ws".into(), 1, vec![1]));
    }
    let db = Database::open(&path, Some("a_b"));
    assert_eq!(db.list(), vec!["k"]);
    assert_eq!(db.get("k").unwrap(), b"one");
    let bytes: Option<Vec<u8>> = db.find(db.vault.get_snapshot("ws".into()));
    assert_eq!(bytes.unwrap(), vec![1]);
    let shouted = Database::open(&path, Some("A_B"));
    assert_eq!(shouted.list(), vec!["k"]);
}
