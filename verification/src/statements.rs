//! Laws of the vault on what its callers hold in hand: the statements that go to SQLite, the
//! requests, what is stored for an asset, and names.
use std::time::SystemTime;
use vstd::prelude::*;

use crate::pack::{
    all_described, cut_pieces, describes, extension_text, hex_text, piece, pieces, plan_for,
    recipe_bytes, sha3_256, Plan, VaultError,
};
use crate::tables::{after_request, AssetRow, SnapshotRow, Tables};
use crate::text::lower;
use crate::vault::{
    clean_name, elapsed_millis, is_unix_epoch, request_statement, shown_time, snapshot_entry,
    tables_sql, time_between, timestamp, whole_millis, writes, AssetWrite, ObjectKind, Param,
    Request, RequestView, Statement, BUSY_TIMEOUT_MILLIS,
};

verus! {

/// The statement that enters an asset puts the new row in place of whatever stands under the key:
/// it has no condition, each column takes its own parameter, and every other key stays.
pub proof fn law_put_asset_statement(
    ns: Seq<char>,
    request: Request,
    statement: Statement,
    tables: Tables,
    other: Seq<char>,
)
    requires
        request is PutAsset,
        statement@ == request_statement(ns, request@),
    ensures
        statement.sql@ == "INSERT INTO "@ + ns
            + "_asset_keys(key, recipe_hash, file_hash, size, updated_at)
           VALUES(?1, ?2, ?3, ?4, ?5)
           ON CONFLICT(key) DO UPDATE SET
             recipe_hash=?2, file_hash=?3, size=?4, updated_at=?5"@,
        statement.params@.len() == 5,
        statement.params@[0] matches Param::Text(text) && text@ == request->PutAsset_key@,
        statement.params@[1] matches Param::Text(text) && text@ == request->recipe_hash@,
        statement.params@[2] matches Param::Text(text) && text@ == request->file_hash@,
        statement.params@[3] == Param::Integer(request->size),
        statement.params@[4] == Param::Integer(request->PutAsset_updated_at),
        ({
            let after = after_request(tables, request@);
            &&& after.assets.contains_key(request->PutAsset_key@)
            &&& after.assets[request->PutAsset_key@] == AssetRow {
                recipe_hash: request->recipe_hash@,
                file_hash: request->file_hash@,
                size: request->size,
                updated_at: request->PutAsset_updated_at,
            }
            &&& other != request->PutAsset_key@ ==> after.assets.contains_key(other)
                == tables.assets.contains_key(other) && after.assets[other] == tables.assets[other]
            &&& after.snapshots == tables.snapshots
            &&& after.objects == tables.objects
        }),
{
    lemma_params(statement, request_statement(ns, request@).params);
}

/// The statements about an asset concern the row whose key equals the one parameter, and no other:
/// one asks for its recipe, one counts it, one removes it.
pub proof fn law_asset_key_statements(
    ns: Seq<char>,
    request: Request,
    statement: Statement,
    tables: Tables,
    other: Seq<char>,
)
    requires
        request is FindRecipe || request is CountAssets || request is DeleteAsset,
        statement@ == request_statement(ns, request@),
    ensures
        ({
            let key = match request {
                Request::FindRecipe { key } => key@,
                Request::CountAssets { key } => key@,
                Request::DeleteAsset { key } => key@,
                _ => Seq::empty(),
            };
            let after = after_request(tables, request@);
            &&& statement.params@.len() == 1
            &&& statement.params@[0] matches Param::Text(text) && text@ == key
            &&& request is FindRecipe ==> statement.sql@ == "SELECT recipe_hash FROM "@ + ns
                + "_asset_keys WHERE key=?1"@
            &&& request is CountAssets ==> statement.sql@ == "SELECT COUNT(*) FROM "@ + ns
                + "_asset_keys WHERE key=?1"@
            &&& request is DeleteAsset ==> statement.sql@ == "DELETE FROM "@ + ns
                + "_asset_keys WHERE key=?1"@
            &&& after.assets.contains_key(key) == (tables.assets.contains_key(key)
                && !(request is DeleteAsset))
            &&& other != key || !(request is DeleteAsset) ==> after.assets.contains_key(other)
                == tables.assets.contains_key(other) && (tables.assets.contains_key(other)
                ==> after.assets[other] == tables.assets[other])
            &&& after.snapshots == tables.snapshots
            &&& after.objects == tables.objects
        }),
{
    lemma_params(statement, request_statement(ns, request@).params);
}

/// The statement that lists the keys asks for all of them, in ascending order, and takes no
/// parameter.
pub proof fn law_list_statement(
    ns: Seq<char>,
    request: Request,
    statement: Statement,
    tables: Tables,
)
    requires
        request is ListKeys,
        statement@ == request_statement(ns, request@),
    ensures
        statement.sql@ == "SELECT key FROM "@ + ns + "_asset_keys ORDER BY key"@,
        statement.params@.len() == 0,
        after_request(tables, request@) == tables,
{
    lemma_params(statement, request_statement(ns, request@).params);
}

/// The statement that enters a snapshot puts the new row in place of whatever stands under the
/// workspace: it has no condition, each column takes its own parameter, and every other workspace
/// stays.
pub proof fn law_put_snapshot_statement(
    ns: Seq<char>,
    request: Request,
    statement: Statement,
    tables: Tables,
    other: Seq<char>,
)
    requires
        request is PutSnapshot,
        statement@ == request_statement(ns, request@),
    ensures
        statement.sql@ == "INSERT INTO "@ + ns
            + "_snapshot(workspace, sequence, bytes, updated_at)
           VALUES(?1, ?2, ?3, ?4)
           ON CONFLICT(workspace) DO UPDATE SET sequence=?2, bytes=?3, updated_at=?4"@,
        statement.params@.len() == 4,
        statement.params@[0] matches Param::Text(text) && text@ == request->PutSnapshot_workspace@,
        statement.params@[1] == Param::Integer(request->sequence),
        statement.params@[2] matches Param::Blob(blob) && blob@ == request->bytes@,
        statement.params@[3] == Param::Integer(request->PutSnapshot_updated_at),
        ({
            let after = after_request(tables, request@);
            &&& after.snapshots.contains_key(request->PutSnapshot_workspace@)
            &&& after.snapshots[request->PutSnapshot_workspace@] == SnapshotRow {
                sequence: request->sequence,
                bytes: request->bytes@,
                updated_at: request->PutSnapshot_updated_at,
            }
            &&& other != request->PutSnapshot_workspace@ ==> after.snapshots.contains_key(other)
                == tables.snapshots.contains_key(other) && after.snapshots[other]
                == tables.snapshots[other]
            &&& after.assets == tables.assets
            &&& after.objects == tables.objects
        }),
{
    lemma_params(statement, request_statement(ns, request@).params);
}

/// The statements about a snapshot concern the row whose workspace equals the one parameter, and
/// no other: one asks for its bytes, one removes it.
pub proof fn law_snapshot_key_statements(
    ns: Seq<char>,
    request: Request,
    statement: Statement,
    tables: Tables,
    other: Seq<char>,
)
    requires
        request is FindSnapshot || request is DeleteSnapshot,
        statement@ == request_statement(ns, request@),
    ensures
        ({
            let workspace = match request {
                Request::FindSnapshot { workspace } => workspace@,
                Request::DeleteSnapshot { workspace } => workspace@,
                _ => Seq::empty(),
            };
            let after = after_request(tables, request@);
            &&& statement.params@.len() == 1
            &&& statement.params@[0] matches Param::Text(text) && text@ == workspace
            &&& request is FindSnapshot ==> statement.sql@ == "SELECT bytes FROM "@ + ns
                + "_snapshot WHERE workspace=?1"@
            &&& request is DeleteSnapshot ==> statement.sql@ == "DELETE FROM "@ + ns
                + "_snapshot WHERE workspace=?1"@
            &&& after.snapshots.contains_key(workspace) == (tables.snapshots.contains_key(workspace)
                && !(request is DeleteSnapshot))
            &&& other != workspace || !(request is DeleteSnapshot)
                ==> after.snapshots.contains_key(other) == tables.snapshots.contains_key(other) && (
            tables.snapshots.contains_key(other) ==> after.snapshots[other]
                == tables.snapshots[other])
            &&& after.assets == tables.assets
            &&& after.objects == tables.objects
        }),
{
    lemma_params(statement, request_statement(ns, request@).params);
}

/// The parameters of a statement are those that it stands for.
proof fn lemma_params(statement: Statement, params: Seq<crate::vault::ParamView>)
    requires
        statement@.params == params,
    ensures
        statement.params@.len() == params.len(),
        forall|i: int| 0 <= i < params.len() ==> (#[trigger] statement.params@[i])@ == params[i],
{
    assert forall|i: int| 0 <= i < params.len() implies (#[trigger] statement.params@[i])@
        == params[i] by {
        assert(statement@.params[i] == statement.params@[i]@);
    }
}

/// The tables that a vault opens: one of assets by key, with an index on their recipes, and one of
/// snapshots by workspace. Each is made only where it is missing.
pub proof fn law_schema_text(ns: Seq<char>)
    ensures
        tables_sql(ns) == "CREATE TABLE IF NOT EXISTS "@ + ns + "_asset_keys(
       key TEXT PRIMARY KEY,
       recipe_hash TEXT NOT NULL,
       file_hash TEXT NOT NULL,
       size INTEGER NOT NULL,
       updated_at INTEGER NOT NULL);
     CREATE INDEX IF NOT EXISTS idx_"@ + ns + "_asset_keys_recipe ON "@ + ns
            + "_asset_keys(recipe_hash);
     CREATE TABLE IF NOT EXISTS "@ + ns + "_snapshot(
       workspace TEXT PRIMARY KEY,
       sequence INTEGER NOT NULL,
       bytes BLOB NOT NULL,
       updated_at INTEGER NOT NULL);"@,
{
}

/// A request of the vault is of the kind that it stands for, with the key, the workspace and the
/// contents that it stands for.
pub proof fn law_request_is_what_it_says(request: Request)
    ensures
        match request@ {
            RequestView::PutAsset { key, recipe_hash, file_hash, size, updated_at } => {
                &&& request is PutAsset
                &&& request->PutAsset_key@ == key
                &&& request->recipe_hash@ == recipe_hash
                &&& request->file_hash@ == file_hash
                &&& request->size == size
                &&& request->PutAsset_updated_at == updated_at
            },
            RequestView::FindRecipe { key } => request is FindRecipe && request->FindRecipe_key@
                == key,
            RequestView::CountAssets { key } => request is CountAssets && request->CountAssets_key@
                == key,
            RequestView::DeleteAsset { key } => request is DeleteAsset && request->DeleteAsset_key@
                == key,
            RequestView::ListKeys => request is ListKeys,
            RequestView::PutSnapshot { workspace, sequence, bytes, updated_at } => {
                &&& request is PutSnapshot
                &&& request->PutSnapshot_workspace@ == workspace
                &&& request->sequence == sequence
                &&& request->bytes@ == bytes
                &&& request->PutSnapshot_updated_at == updated_at
            },
            RequestView::FindSnapshot { workspace } => request is FindSnapshot
                && request->FindSnapshot_workspace@ == workspace,
            RequestView::DeleteSnapshot { workspace } => request is DeleteSnapshot
                && request->DeleteSnapshot_workspace@ == workspace,
        },
{
}

/// A snapshot goes in for its own workspace, with its own sequence and its own bytes.
pub proof fn law_snapshot_goes_in_whole(
    request: Request,
    workspace: Seq<char>,
    sequence: i64,
    bytes: Seq<u8>,
    updated_at: i64,
)
    requires
        request@ == snapshot_entry(workspace, sequence, bytes, updated_at),
    ensures
        request is PutSnapshot,
        request->PutSnapshot_workspace@ == workspace,
        request->sequence == sequence,
        request->bytes@ == bytes,
        request->PutSnapshot_updated_at == updated_at,
{
}

/// What is stored for an asset: its own row under its own key; for each chunk of the plan, in
/// order, one object under the hash of the chunk with just the bytes that the chunk carries; and a
/// recipe that lists the chunks in order, under its own hash.
pub proof fn law_write_is_whole(
    write: AssetWrite,
    key: Seq<char>,
    size: nat,
    file_hash: Seq<u8>,
    plan: Plan,
    updated_at: i64,
)
    requires
        writes(write, key, size, file_hash, plan, updated_at),
    ensures
        write.content_hash@ == hex_text(file_hash),
        write.request is PutAsset,
        write.request->PutAsset_key@ == key,
        write.request->recipe_hash@ == hex_text(sha3_256(write.recipe@)),
        write.request->file_hash@ == hex_text(file_hash),
        write.request->size == size as i64,
        size <= i64::MAX ==> write.request->size == size,
        write.request->PutAsset_updated_at == updated_at,
        write.recipe_hash@ == sha3_256(write.recipe@),
        write.objects@.len() == plan.chunks@.len(),
        forall|i: int|
            #![trigger write.objects@[i]]
            #![trigger plan.chunks@[i]]
            0 <= i < plan.chunks@.len() ==> {
                &&& write.objects@[i].hash@ == plan.chunks@[i].hash@
                &&& write.objects@[i].kind == ObjectKind::Chunk
                &&& write.objects@[i].decoded_len == plan.chunks@[i].raw_len
                &&& write.objects@[i].codec == plan.chunks@[i].codec
                &&& plan.chunks@[i].payload matches Some(payload)
                    ==> write.objects@[i].stored_bytes@ == payload@
                &&& plan.chunks@[i].payload is None ==> write.objects@[i].stored_bytes@.len() == 0
            },
        exists|lines: Seq<(Seq<u8>, u32)>|
            {
                &&& lines.len() == plan.chunks@.len()
                &&& forall|i: int|
                    0 <= i < lines.len() ==> (#[trigger] lines[i]).0 == plan.chunks@[i].hash@
                        && lines[i].1 == plan.chunks@[i].raw_len
                &&& write.recipe@ == #[trigger] recipe_bytes(
                    plan.original_size,
                    lines,
                    file_hash,
                    plan.transform_id,
                    plan.transform_version,
                )
            },
{
    let views = crate::vault::object_views(write.objects@);
    let chunks = plan.chunks@;
    assert(views.len() == chunks.len());
    assert forall|i: int|
        #![trigger write.objects@[i]]
        #![trigger plan.chunks@[i]]
        0 <= i < chunks.len() implies {
        &&& write.objects@[i].hash@ == plan.chunks@[i].hash@
        &&& write.objects@[i].kind == ObjectKind::Chunk
        &&& write.objects@[i].decoded_len == plan.chunks@[i].raw_len
        &&& write.objects@[i].codec == plan.chunks@[i].codec
        &&& plan.chunks@[i].payload matches Some(payload) ==> write.objects@[i].stored_bytes@
            == payload@
        &&& plan.chunks@[i].payload is None ==> write.objects@[i].stored_bytes@.len() == 0
    } by {
        assert(views[i] == write.objects@[i]@);
        assert(views[i] == crate::vault::chunk_object(chunks[i]));
    }
    let lines = crate::vault::chunk_lines(chunks);
    assert(write.recipe@ == recipe_bytes(
        plan.original_size,
        lines,
        file_hash,
        plan.transform_id,
        plan.transform_version,
    ));
}

/// A namespace keeps its length and each of its ASCII letters, digits and underscores; each of its
/// other characters becomes an underscore, and an empty one becomes `default`.
pub proof fn law_cleaned_characters(raw: Seq<char>)
    ensures
        raw.len() == 0 ==> clean_name(raw) == "default"@,
        raw.len() > 0 ==> clean_name(raw).len() == raw.len(),
        forall|i: int|
            #![trigger raw[i]]
            #![trigger clean_name(raw)[i]]
            0 <= i < raw.len() ==> {
                let kept = 'a' <= raw[i] <= 'z' || 'A' <= raw[i] <= 'Z' || '0' <= raw[i] <= '9'
                    || raw[i] == '_';
                clean_name(raw)[i] == if kept {
                    raw[i]
                } else {
                    '_'
                }
            },
{
}

/// A timestamp counts the milliseconds as they are wherever they fit, and is zero before the epoch.
pub proof fn law_timestamp(millis: u128)
    ensures
        timestamp(None) == 0,
        millis <= i64::MAX ==> timestamp(Some(millis)) == millis,
        timestamp(Some(millis)) == millis as i64,
{
}

/// A failure of the packer carries the packer's message.
pub proof fn law_vault_error_text(error: VaultError)
    ensures
        error matches VaultError::Pack(message) && error.text() == message@,
{
}

/// The time that the vault notes is the whole number of milliseconds that passed since the Unix
/// epoch at some reading of the clock, or zero where the clock stands before it.
pub proof fn law_noted_time(millis: i64)
    requires
        shown_time(millis),
    ensures
        exists|now: SystemTime, epoch: SystemTime|
            is_unix_epoch(epoch) && (#[trigger] time_between(now, epoch) matches Some(elapsed)
                ==> millis == whole_millis(elapsed) as i64) && (time_between(now, epoch) is None
                ==> millis == 0),
{
    let (now, epoch): (SystemTime, SystemTime) = choose|now: SystemTime, epoch: SystemTime|
        is_unix_epoch(epoch) && millis == timestamp(#[trigger] elapsed_millis(now, epoch));
    assert(time_between(now, epoch) is Some || time_between(now, epoch) is None);
}

/// A file whose extension tells that it is compressed, in whatever case, is stored piece by piece
/// as it is.
pub proof fn law_compressed_files_stay_as_they_are(
    plan: Plan,
    data: Seq<u8>,
    extension: Option<String>,
    i: int,
)
    requires
        plan_for(plan, data, extension_text(extension)),
        all_described(plan.chunks@),
        extension is Some,
        ({
            let e = lower(extension->Some_0@);
            e == "jpg"@ || e == "jpeg"@ || e == "png"@ || e == "webp"@ || e == "zip"@ || e
                == "epub"@ || e == "gz"@ || e == "tgz"@ || e == "bz2"@ || e == "xz"@ || e == "br"@
                || e == "zst"@ || e == "mp4"@ || e == "mov"@
        }),
        0 <= i < plan.chunks@.len(),
    ensures
        plan.chunks@[i].codec is Raw,
        plan.chunks@[i].payload matches Some(payload) && payload@ == cut_pieces(data)[i],
{
    assert(describes(plan.chunks@[i], piece(plan.chunks@[i])));
    assert(pieces(plan.chunks@)[i] == piece(plan.chunks@[i]));
}

/// The extension of a file goes to the packer as it was given.
pub proof fn law_extension(extension: Option<String>)
    ensures
        extension is None ==> extension_text(extension) is None,
        extension matches Some(e) ==> extension_text(extension) == Some(e@),
{
}

/// SQLite waits five seconds for a lock.
pub proof fn law_busy_timeout()
    ensures
        BUSY_TIMEOUT_MILLIS == 5000,
{
}

} // verus!
