//! What the requests of the vault mean: a model of its tables, and the laws of the vault over it.
use vstd::prelude::*;

use crate::pack::{
    all_described, cut_pieces, describes, digit_value, hex_byte, hex_bytes, hex_digit, hex_text, le_bytes,
    parsed_hash, piece, pieces, plan_for, recipe_bytes, recipe_line, recipe_lines, sha3_256,
    unpacked, Chunk, Codec, Plan, VaultError,
};
use crate::text::{lower, lower_char};
use crate::vault::{
    chunk_lines, chunk_object, chunk_objects, clean_name, name_char, object_views,
    request_statement, tables_sql, writes, AssetWrite, ObjectKind, ObjectView, RequestView,
};

verus! {

/// A row of the table of assets.
pub ghost struct AssetRow {
    pub recipe_hash: Seq<char>,
    pub file_hash: Seq<char>,
    pub size: i64,
    pub updated_at: i64,
}

/// A row of the table of snapshots.
pub ghost struct SnapshotRow {
    pub sequence: i64,
    pub bytes: Seq<u8>,
    pub updated_at: i64,
}

/// The tables of a namespace.
#[verifier::ext_equal]
pub ghost struct Tables {
    /// The assets by their keys.
    pub assets: Map<Seq<char>, AssetRow>,
    /// The snapshots by their workspaces.
    pub snapshots: Map<Seq<char>, SnapshotRow>,
    /// The objects by their hashes.
    pub objects: Map<Seq<u8>, ObjectView>,
}

/// The tables after a request.
pub open spec fn after_request(tables: Tables, request: RequestView) -> Tables {
    match request {
        RequestView::PutAsset { key, recipe_hash, file_hash, size, updated_at } => Tables {
            assets: tables.assets.insert(
                key,
                AssetRow { recipe_hash, file_hash, size, updated_at },
            ),
            ..tables
        },
        RequestView::DeleteAsset { key } => Tables { assets: tables.assets.remove(key), ..tables },
        RequestView::PutSnapshot { workspace, sequence, bytes, updated_at } => Tables {
            snapshots: tables.snapshots.insert(
                workspace,
                SnapshotRow { sequence, bytes, updated_at },
            ),
            ..tables
        },
        RequestView::DeleteSnapshot { workspace } => Tables {
            snapshots: tables.snapshots.remove(workspace),
            ..tables
        },
        _ => tables,
    }
}

/// The recipe of the asset under a key.
pub open spec fn found_recipe(tables: Tables, key: Seq<char>) -> Option<Seq<char>> {
    if tables.assets.contains_key(key) {
        Some(tables.assets[key].recipe_hash)
    } else {
        None
    }
}

/// The number of assets under a key.
pub open spec fn asset_count(tables: Tables, key: Seq<char>) -> int {
    if tables.assets.contains_key(key) {
        1
    } else {
        0
    }
}

/// The snapshot of a workspace.
pub open spec fn found_snapshot(tables: Tables, workspace: Seq<char>) -> Option<Seq<u8>> {
    if tables.snapshots.contains_key(workspace) {
        Some(tables.snapshots[workspace].bytes)
    } else {
        None
    }
}

/// The number of snapshots of a workspace.
pub open spec fn snapshot_count(tables: Tables, workspace: Seq<char>) -> int {
    if tables.snapshots.contains_key(workspace) {
        1
    } else {
        0
    }
}

/// The number of rows that a request removes.
pub open spec fn removed_rows(tables: Tables, request: RequestView) -> int {
    match request {
        RequestView::DeleteAsset { key } => asset_count(tables, key),
        RequestView::DeleteSnapshot { workspace } => snapshot_count(tables, workspace),
        _ => 0,
    }
}

/// One text comes before another one: in the first place where they differ it has the lower
/// character, or it is the beginning of the other.
pub open spec fn comes_before(a: Seq<char>, b: Seq<char>) -> bool
    decreases a.len(),
{
    if b.len() == 0 {
        false
    } else if a.len() == 0 {
        true
    } else if a[0] == b[0] {
        comes_before(a.skip(1), b.skip(1))
    } else {
        a[0] < b[0]
    }
}

/// A list of all keys in ascending order.
pub open spec fn lists(tables: Tables, keys: Seq<Seq<char>>) -> bool {
    &&& forall|key: Seq<char>| #[trigger] keys.contains(key) <==> tables.assets.contains_key(key)
    &&& forall|i: int, j: int|
        0 <= i < j < keys.len() ==> comes_before(#[trigger] keys[i], #[trigger] keys[j])
}

/// The store after an object was put in; one with its hash stays as it is.
pub open spec fn after_object(
    objects: Map<Seq<u8>, ObjectView>,
    object: ObjectView,
) -> Map<Seq<u8>, ObjectView> {
    if objects.contains_key(object.hash) {
        objects
    } else {
        objects.insert(object.hash, object)
    }
}

/// The store after objects were put in, one after the other.
pub open spec fn after_objects(
    objects: Map<Seq<u8>, ObjectView>,
    added: Seq<ObjectView>,
) -> Map<Seq<u8>, ObjectView>
    decreases added.len(),
{
    if added.len() == 0 {
        objects
    } else {
        after_object(after_objects(objects, added.drop_last()), added.last())
    }
}

/// The object that holds the recipe of an asset.
pub open spec fn recipe_object(write: AssetWrite) -> ObjectView {
    ObjectView {
        hash: write.recipe_hash@,
        kind: ObjectKind::Recipe,
        decoded_len: write.recipe@.len() as u64,
        codec: Codec::Raw,
        stored_bytes: write.recipe@,
    }
}

/// All objects that are put in for an asset.
pub open spec fn written_objects(write: AssetWrite) -> Seq<ObjectView> {
    object_views(write.objects@).push(recipe_object(write))
}

/// The tables after an asset was stored.
pub open spec fn after_write(tables: Tables, write: AssetWrite) -> Tables {
    after_request(
        Tables { objects: after_objects(tables.objects, written_objects(write)), ..tables },
        write.request@,
    )
}

/// The bytes that an object stands for.
pub open spec fn object_content(object: ObjectView) -> Seq<u8> {
    if object.codec is Raw {
        object.stored_bytes
    } else {
        unpacked(object.codec, object.stored_bytes)
    }
}

/// The store holds an object of a kind with a content under a hash.
pub open spec fn holds(
    objects: Map<Seq<u8>, ObjectView>,
    hash: Seq<u8>,
    kind: ObjectKind,
    content: Seq<u8>,
) -> bool {
    &&& objects.contains_key(hash)
    &&& objects[hash].kind == kind
    &&& object_content(objects[hash]) == content
}

/// What the lines of a recipe stand for: the contents of the chunks, one behind the other.
pub open spec fn assembled(
    objects: Map<Seq<u8>, ObjectView>,
    lines: Seq<(Seq<u8>, u32)>,
) -> Seq<u8> {
    lines.map_values(|line: (Seq<u8>, u32)| object_content(objects[line.0])).flatten()
}

/// Every line of a recipe stands for a chunk of its length.
pub open spec fn all_present(
    objects: Map<Seq<u8>, ObjectView>,
    lines: Seq<(Seq<u8>, u32)>,
) -> bool {
    forall|i: int|
        0 <= i < lines.len() ==> {
            &&& (#[trigger] lines[i]).0.len() == 32
            &&& objects.contains_key(lines[i].0)
            &&& objects[lines[i].0].kind is Chunk
            &&& object_content(objects[lines[i].0]).len() == lines[i].1
        }
}

/// A recipe for data that goes without a transformation, with the lines that it holds.
pub open spec fn recipe_for(recipe: Seq<u8>, data: Seq<u8>, lines: Seq<(Seq<u8>, u32)>) -> bool {
    &&& data.len() <= u64::MAX
    &&& sha3_256(data).len() == 32
    &&& recipe == recipe_bytes(data.len() as u64, lines, sha3_256(data), 0, 0)
}

/// A reader that follows the recipe under a key puts together the data. A bound that a reader sets
/// to the size of what it reads is no part of this.
pub open spec fn reads(tables: Tables, key: Seq<char>, data: Seq<u8>) -> bool {
    &&& found_recipe(tables, key) matches Some(text)
    &&& parsed_hash(text) matches Ok(hash)
    &&& tables.objects.contains_key(hash)
    &&& tables.objects[hash].kind is Recipe
    &&& exists|lines: Seq<(Seq<u8>, u32)>|
        {
            &&& #[trigger] recipe_for(object_content(tables.objects[hash]), data, lines)
            &&& all_present(tables.objects, lines)
            &&& assembled(tables.objects, lines) == data
        }
}

/// Two objects do not stand in each other's way: under one hash they hold the same.
pub open spec fn agree(a: ObjectView, b: ObjectView) -> bool {
    a.hash == b.hash ==> a.kind == b.kind && object_content(a) == object_content(b)
}

/// No object that is put in shares its hash with one of another content or kind.
pub open spec fn no_clash(objects: Map<Seq<u8>, ObjectView>, added: Seq<ObjectView>) -> bool {
    &&& forall|i: int, hash: Seq<u8>|
        0 <= i < added.len() && #[trigger] objects.contains_key(hash) && hash == (
        #[trigger] added[i]).hash ==> holds(
            objects,
            hash,
            added[i].kind,
            object_content(added[i]),
        )
    &&& forall|i: int, j: int|
        0 <= i < j < added.len() ==> agree(#[trigger] added[i], #[trigger] added[j])
}

/// What is in the store stays.
proof fn lemma_objects_stay(objects: Map<Seq<u8>, ObjectView>, added: Seq<ObjectView>, hash: Seq<u8>)
    requires
        objects.contains_key(hash),
    ensures
        after_objects(objects, added).contains_key(hash),
        after_objects(objects, added)[hash] == objects[hash],
    decreases added.len(),
{
    if added.len() > 0 {
        lemma_objects_stay(objects, added.drop_last(), hash);
    }
}

/// Where nothing clashes, every object that is put in is found afterwards.
proof fn lemma_objects_held(objects: Map<Seq<u8>, ObjectView>, added: Seq<ObjectView>, k: int)
    requires
        no_clash(objects, added),
        0 <= k < added.len(),
    ensures
        holds(
            after_objects(objects, added),
            added[k].hash,
            added[k].kind,
            object_content(added[k]),
        ),
    decreases added.len(),
{
    let front = added.drop_last();
    assert(no_clash(objects, front)) by {
        assert forall|i: int, j: int| 0 <= i < j < front.len() implies agree(
            #[trigger] front[i],
            #[trigger] front[j],
        ) by {
            assert(agree(added[i], added[j]));
        }
        assert forall|i: int, hash: Seq<u8>|
            0 <= i < front.len() && #[trigger] objects.contains_key(hash) && hash == (
            #[trigger] front[i]).hash implies holds(
            objects,
            hash,
            front[i].kind,
            object_content(front[i]),
        ) by {
            assert(added[i] == front[i]);
        }
    }
    if k < front.len() {
        lemma_objects_held(objects, front, k);
    } else {
        let hash = added[k].hash;
        if after_objects(objects, front).contains_key(hash) {
            lemma_object_source(objects, front, hash);
            if !objects.contains_key(hash) {
                let i = choose|i: int|
                    0 <= i < front.len() && (#[trigger] front[i]).hash == hash
                        && after_objects(objects, front)[hash] == front[i];
                assert(agree(added[i], added[k]));
            }
        }
    }
}

/// What is in the store afterwards was there or was put in.
proof fn lemma_object_source(
    objects: Map<Seq<u8>, ObjectView>,
    added: Seq<ObjectView>,
    hash: Seq<u8>,
)
    requires
        after_objects(objects, added).contains_key(hash),
    ensures
        objects.contains_key(hash) ==> after_objects(objects, added)[hash] == objects[hash],
        !objects.contains_key(hash) ==> exists|i: int|
            0 <= i < added.len() && (#[trigger] added[i]).hash == hash && after_objects(
                objects,
                added,
            )[hash] == added[i],
    decreases added.len(),
{
    if objects.contains_key(hash) {
        lemma_objects_stay(objects, added, hash);
    } else if added.len() > 0 {
        let front = added.drop_last();
        if after_objects(objects, front).contains_key(hash) {
            lemma_object_source(objects, front, hash);
            let i = choose|i: int|
                0 <= i < front.len() && (#[trigger] front[i]).hash == hash && after_objects(
                    objects,
                    front,
                )[hash] == front[i];
            assert(added[i] == front[i]);
        } else {
            assert(added[added.len() - 1].hash == hash);
        }
    }
}

/// Hexadecimal notation is read back as the bytes that it was written for, and it has two digits
/// for each of them, `0` to `9` or `a` to `f`. A hash of 32 bytes is read back as a hash.
pub proof fn law_hex_reads_back(bytes: Seq<u8>)
    ensures
        hex_bytes(hex_text(bytes)) == Some(bytes),
        hex_text(bytes).len() == 2 * bytes.len(),
        forall|i: int|
            0 <= i < hex_text(bytes).len() ==> '0' <= #[trigger] hex_text(bytes)[i] <= '9' || 'a'
                <= hex_text(bytes)[i] <= 'f',
        bytes.len() == 32 ==> parsed_hash(hex_text(bytes)) == Ok::<_, Seq<char>>(bytes),
    decreases bytes.len(),
{
    if bytes.len() > 0 {
        let front = bytes.drop_last();
        law_hex_reads_back(front);
        let text = hex_text(bytes);
        let b = bytes.last();
        assert(text == hex_text(front) + hex_byte(b));
        assert(text.take(text.len() - 2) =~= hex_text(front));
        assert(text[text.len() - 2] == hex_digit(b as int / 16));
        assert(text[text.len() - 1] == hex_digit(b as int % 16));
        assert(digit_value(hex_digit(b as int / 16)) == Some(b as int / 16));
        assert(digit_value(hex_digit(b as int % 16)) == Some(b as int % 16));
        assert(16 * (b as int / 16) + b as int % 16 == b);
        assert(front.push(b) =~= bytes);
    } else {
        assert(bytes =~= Seq::empty());
    }
}

/// The object of a chunk holds the piece that the chunk carries.
proof fn lemma_chunk_content(chunk: Chunk)
    requires
        describes(chunk, piece(chunk)),
    ensures
        object_content(chunk_object(chunk)) == piece(chunk),
{
}

/// What is put in under a key is read back: once an asset was stored, a reader that follows the
/// recipe under its key puts together the bytes of the asset. Left out are stores in which an
/// object of other content, or of another kind, has the hash of one that is put in.
pub proof fn law_put_then_get(
    tables: Tables,
    write: AssetWrite,
    key: Seq<char>,
    data: Seq<u8>,
    extension: Option<Seq<char>>,
    plan: Plan,
    updated_at: i64,
)
    requires
        plan_for(plan, data, extension),
        all_described(plan.chunks@),
        writes(write, key, data.len(), sha3_256(data), plan, updated_at),
        no_clash(tables.objects, written_objects(write)),
    ensures
        reads(after_write(tables, write), key, data),
{
    let after = after_write(tables, write);
    let added = written_objects(write);
    let lines = chunk_lines(plan.chunks@);
    let chunks = plan.chunks@;
    assert(object_views(write.objects@) == chunk_objects(chunks));
    assert(added.len() == chunks.len() + 1);
    law_hex_reads_back(write.recipe_hash@);
    lemma_objects_held(tables.objects, added, chunks.len() as int);
    assert(added[chunks.len() as int] == recipe_object(write));
    assert(recipe_for(object_content(after.objects[write.recipe_hash@]), data, lines));
    assert forall|i: int| 0 <= i < chunks.len() implies holds(
        after.objects,
        (#[trigger] chunks[i]).hash@,
        ObjectKind::Chunk,
        piece(chunks[i]),
    ) by {
        assert(added[i] == chunk_object(chunks[i]));
        lemma_chunk_content(chunks[i]);
        lemma_objects_held(tables.objects, added, i);
    }
    assert(all_present(after.objects, lines)) by {
        assert forall|i: int| 0 <= i < lines.len() implies {
            &&& (#[trigger] lines[i]).0.len() == 32
            &&& after.objects.contains_key(lines[i].0)
            &&& after.objects[lines[i].0].kind is Chunk
            &&& object_content(after.objects[lines[i].0]).len() == lines[i].1
        } by {
            assert(describes(chunks[i], piece(chunks[i])));
            assert(lines[i].0 == chunks[i].hash@);
        }
    }
    assert(lines.map_values(|line: (Seq<u8>, u32)| object_content(after.objects[line.0]))
        =~= pieces(chunks));
}

/// An asset stays as it is when another one is stored.
pub proof fn law_put_keeps_others(
    tables: Tables,
    write: AssetWrite,
    key: Seq<char>,
    size: nat,
    file_hash: Seq<u8>,
    plan: Plan,
    updated_at: i64,
    other: Seq<char>,
    data: Seq<u8>,
)
    requires
        writes(write, key, size, file_hash, plan, updated_at),
        other != key,
        reads(tables, other, data),
    ensures
        reads(after_write(tables, write), other, data),
{
    let after = after_write(tables, write);
    let added = written_objects(write);
    let hash = parsed_hash(found_recipe(tables, other)->Some_0)->Ok_0;
    let lines = choose|lines: Seq<(Seq<u8>, u32)>|
        {
            &&& #[trigger] recipe_for(object_content(tables.objects[hash]), data, lines)
            &&& all_present(tables.objects, lines)
            &&& assembled(tables.objects, lines) == data
        };
    lemma_objects_stay(tables.objects, added, hash);
    assert forall|i: int| 0 <= i < lines.len() implies {
        &&& after.objects.contains_key((#[trigger] lines[i]).0)
        &&& after.objects[lines[i].0] == tables.objects[lines[i].0]
    } by {
        lemma_objects_stay(tables.objects, added, lines[i].0);
    }
    assert(lines.map_values(|line: (Seq<u8>, u32)| object_content(after.objects[line.0]))
        =~= lines.map_values(|line: (Seq<u8>, u32)| object_content(tables.objects[line.0])));
    assert(recipe_for(object_content(after.objects[hash]), data, lines));
}

/// The powers of 256.
spec fn pow256(n: nat) -> nat
    decreases n,
{
    if n == 0 {
        1
    } else {
        256 * pow256((n - 1) as nat)
    }
}

/// The lowest bytes of a number are as many as were asked for, and they tell numbers apart that
/// have no more.
proof fn lemma_le_bytes(a: nat, b: nat, width: nat)
    ensures
        le_bytes(a, width).len() == width,
        le_bytes(b, width).len() == width,
        a < pow256(width) && b < pow256(width) && le_bytes(a, width) == le_bytes(b, width) ==> a
            == b,
    decreases width,
{
    if width > 0 {
        let (x, y) = (le_bytes(a, width), le_bytes(b, width));
        let rest = (width - 1) as nat;
        lemma_le_bytes(a / 256, b / 256, rest);
        assert(x == seq![(a % 256) as u8] + le_bytes(a / 256, rest));
        assert(y == seq![(b % 256) as u8] + le_bytes(b / 256, rest));
        if x == y {
            assert(x[0] == y[0]);
            assert(x.skip(1) =~= le_bytes(a / 256, rest));
            assert(y.skip(1) =~= le_bytes(b / 256, rest));
        }
    }
}

/// Every line of a recipe has a hash of 32 bytes.
spec fn whole_lines(lines: Seq<(Seq<u8>, u32)>) -> bool {
    forall|i: int| 0 <= i < lines.len() ==> (#[trigger] lines[i]).0.len() == 32
}

/// The length of the lines of a recipe.
proof fn lemma_lines_len(lines: Seq<(Seq<u8>, u32)>)
    requires
        whole_lines(lines),
    ensures
        recipe_lines(lines).len() == 36 * lines.len(),
    decreases lines.len(),
{
    if lines.len() > 0 {
        assert forall|i: int| 0 <= i < lines.drop_last().len() implies (
        #[trigger] lines.drop_last()[i]).0.len() == 32 by {
            assert(lines.drop_last()[i] == lines[i]);
        }
        lemma_lines_len(lines.drop_last());
        lemma_le_bytes(lines.last().1 as nat, 0, 4);
        assert(lines.last() == lines[lines.len() - 1]);
    }
}

/// The lines of a recipe can be read back.
proof fn lemma_lines_differ(a: Seq<(Seq<u8>, u32)>, b: Seq<(Seq<u8>, u32)>)
    requires
        whole_lines(a),
        whole_lines(b),
        a.len() == b.len(),
        recipe_lines(a) == recipe_lines(b),
    ensures
        a == b,
    decreases a.len(),
{
    if a.len() > 0 {
        let (front, back) = (a.drop_last(), b.drop_last());
        assert(whole_lines(front)) by {
            assert forall|i: int| 0 <= i < front.len() implies (#[trigger] front[i]).0.len()
                == 32 by {
                assert(front[i] == a[i]);
            }
        }
        assert(whole_lines(back)) by {
            assert forall|i: int| 0 <= i < back.len() implies (#[trigger] back[i]).0.len()
                == 32 by {
                assert(back[i] == b[i]);
            }
        }
        lemma_lines_len(front);
        lemma_lines_len(back);
        let n = recipe_lines(front).len() as int;
        let (x, y) = (a.last(), b.last());
        assert(x == a[a.len() - 1] && y == b[b.len() - 1]);
        assert(recipe_lines(a) == recipe_lines(front) + recipe_line(x));
        assert(recipe_lines(b) == recipe_lines(back) + recipe_line(y));
        assert(recipe_lines(a).take(n) =~= recipe_lines(front));
        assert(recipe_lines(b).take(n) =~= recipe_lines(back));
        lemma_lines_differ(front, back);
        assert(recipe_lines(a).skip(n) =~= recipe_line(x));
        assert(recipe_lines(b).skip(n) =~= recipe_line(y));
        assert(recipe_line(x).take(32) =~= x.0);
        assert(recipe_line(y).take(32) =~= y.0);
        assert(recipe_line(x).skip(32) =~= le_bytes(x.1 as nat, 4));
        assert(recipe_line(y).skip(32) =~= le_bytes(y.1 as nat, 4));
        reveal_with_fuel(pow256, 5);
        lemma_le_bytes(x.1 as nat, y.1 as nat, 4);
        assert(a =~= front.push(x));
        assert(b =~= back.push(y));
    }
}

/// A recipe tells its lines: bytes that are a recipe with some lines are no recipe with others.
pub proof fn law_recipe_tells_lines(
    recipe: Seq<u8>,
    data: Seq<u8>,
    lines: Seq<(Seq<u8>, u32)>,
    other_data: Seq<u8>,
    other_lines: Seq<(Seq<u8>, u32)>,
)
    requires
        recipe_for(recipe, data, lines),
        recipe_for(recipe, other_data, other_lines),
        forall|i: int| 0 <= i < lines.len() ==> (#[trigger] lines[i]).0.len() == 32,
        forall|i: int| 0 <= i < other_lines.len() ==> (#[trigger] other_lines[i]).0.len() == 32,
    ensures
        lines == other_lines,
{
    lemma_recipe_head(data, lines);
    lemma_recipe_head(other_data, other_lines);
    lemma_lines_differ(lines, other_lines);
}

/// The lines of a recipe stand behind a head of 49 bytes.
proof fn lemma_recipe_head(data: Seq<u8>, lines: Seq<(Seq<u8>, u32)>)
    requires
        data.len() <= u64::MAX,
        sha3_256(data).len() == 32,
        whole_lines(lines),
    ensures
        ({
            let recipe = recipe_bytes(data.len() as u64, lines, sha3_256(data), 0, 0);
            &&& recipe.len() == 49 + 36 * lines.len()
            &&& recipe.skip(49) == recipe_lines(lines)
        }),
{
    lemma_le_bytes(data.len(), 0, 8);
    lemma_le_bytes(0, 0, 2);
    lemma_le_bytes(lines.len(), 0, 4);
    lemma_lines_len(lines);
    let recipe = recipe_bytes(data.len() as u64, lines, sha3_256(data), 0, 0);
    assert(recipe.skip(49) =~= recipe_lines(lines));
}

/// No more than one content can be read back under a key.
pub proof fn law_get_is_unique(tables: Tables, key: Seq<char>, a: Seq<u8>, b: Seq<u8>)
    requires
        reads(tables, key, a),
        reads(tables, key, b),
    ensures
        a == b,
{
    let hash = parsed_hash(found_recipe(tables, key)->Some_0)->Ok_0;
    let recipe = object_content(tables.objects[hash]);
    let x = choose|lines: Seq<(Seq<u8>, u32)>|
        {
            &&& #[trigger] recipe_for(recipe, a, lines)
            &&& all_present(tables.objects, lines)
            &&& assembled(tables.objects, lines) == a
        };
    let y = choose|lines: Seq<(Seq<u8>, u32)>|
        {
            &&& #[trigger] recipe_for(recipe, b, lines)
            &&& all_present(tables.objects, lines)
            &&& assembled(tables.objects, lines) == b
        };
    law_recipe_tells_lines(recipe, a, x, b, y);
}

/// There is an asset under a key once one was stored under it, and whether there is one under
/// another key does not change.
pub proof fn law_put_then_has(
    tables: Tables,
    write: AssetWrite,
    key: Seq<char>,
    size: nat,
    file_hash: Seq<u8>,
    plan: Plan,
    updated_at: i64,
    other: Seq<char>,
)
    requires
        writes(write, key, size, file_hash, plan, updated_at),
    ensures
        asset_count(after_write(tables, write), key) > 0,
        other != key ==> asset_count(after_write(tables, write), other) == asset_count(
            tables,
            other,
        ),
{
}

/// Storing what has the hashes of objects that were stored before adds no object.
pub proof fn law_put_again_adds_no_object(tables: Tables, first: AssetWrite, again: AssetWrite)
    requires
        forall|i: int|
            0 <= i < written_objects(again).len() ==> exists|j: int|
                0 <= j < written_objects(first).len() && (#[trigger] written_objects(first)[j]).hash
                    == (#[trigger] written_objects(again)[i]).hash,
    ensures
        after_write(after_write(tables, first), again).objects == after_write(
            tables,
            first,
        ).objects,
{
    let added = written_objects(first);
    let more = written_objects(again);
    let once = after_objects(tables.objects, added);
    lemma_request_keeps_objects(Tables { objects: once, ..tables }, first.request@);
    let before = after_write(tables, first);
    lemma_request_keeps_objects(
        Tables { objects: after_objects(once, more), ..before },
        again.request@,
    );
    assert forall|i: int| 0 <= i < more.len() implies once.contains_key(
        (#[trigger] more[i]).hash,
    ) by {
        let j = choose|j: int| 0 <= j < added.len() && (#[trigger] added[j]).hash == more[i].hash;
        lemma_hash_present(tables.objects, added, j);
    }
    lemma_nothing_added(once, more);
}

/// The same bytes have the same recipe and are cut into pieces of the same hashes, whatever the
/// keys, the extensions and the times; so storing them again adds no object.
pub proof fn law_same_bytes_same_recipe(
    tables: Tables,
    first: AssetWrite,
    second: AssetWrite,
    data: Seq<u8>,
    keys: (Seq<char>, Seq<char>),
    extensions: (Option<Seq<char>>, Option<Seq<char>>),
    plans: (Plan, Plan),
    times: (i64, i64),
)
    requires
        plan_for(plans.0, data, extensions.0),
        plan_for(plans.1, data, extensions.1),
        all_described(plans.0.chunks@),
        all_described(plans.1.chunks@),
        writes(first, keys.0, data.len(), sha3_256(data), plans.0, times.0),
        writes(second, keys.1, data.len(), sha3_256(data), plans.1, times.1),
    ensures
        first.recipe@ == second.recipe@,
        first.recipe_hash@ == second.recipe_hash@,
        first.objects@.len() == second.objects@.len(),
        forall|i: int|
            0 <= i < first.objects@.len() ==> (#[trigger] first.objects@[i]).hash@
                == second.objects@[i].hash@,
        after_write(after_write(tables, first), second).objects == after_write(
            tables,
            first,
        ).objects,
{
    let (a, b) = (plans.0.chunks@, plans.1.chunks@);
    let cut = cut_pieces(data);
    assert(pieces(a).len() == cut.len() && pieces(b).len() == cut.len());
    assert forall|i: int| 0 <= i < a.len() implies #[trigger] a[i].hash@ == b[i].hash@
        && a[i].raw_len == b[i].raw_len by {
        assert(describes(a[i], piece(a[i])) && describes(b[i], piece(b[i])));
        assert(pieces(a)[i] == piece(a[i]) && pieces(b)[i] == piece(b[i]));
    }
    assert(chunk_lines(a) =~= chunk_lines(b));
    assert(object_views(first.objects@).len() == a.len());
    assert(object_views(second.objects@).len() == b.len());
    assert forall|i: int| 0 <= i < first.objects@.len() implies (
    #[trigger] first.objects@[i]).hash@ == second.objects@[i].hash@ by {
        assert(object_views(first.objects@)[i] == chunk_object(a[i]));
        assert(object_views(second.objects@)[i] == chunk_object(b[i]));
    }
    let (x, y) = (written_objects(first), written_objects(second));
    assert forall|i: int| 0 <= i < y.len() implies exists|j: int|
        0 <= j < x.len() && (#[trigger] x[j]).hash == (#[trigger] y[i]).hash by {
        if i < b.len() {
            assert(first.objects@[i].hash@ == second.objects@[i].hash@);
            assert(x[i].hash == first.objects@[i].hash@);
            assert(y[i].hash == second.objects@[i].hash@);
        } else {
            assert(x[i].hash == y[i].hash);
        }
    }
    law_put_again_adds_no_object(tables, first, second);
}

/// A request to the tables of assets and snapshots leaves the objects alone.
proof fn lemma_request_keeps_objects(tables: Tables, request: RequestView)
    ensures
        after_request(tables, request).objects == tables.objects,
{
}

/// The hash of an object that was put in is in the store.
proof fn lemma_hash_present(objects: Map<Seq<u8>, ObjectView>, added: Seq<ObjectView>, k: int)
    requires
        0 <= k < added.len(),
    ensures
        after_objects(objects, added).contains_key(added[k].hash),
    decreases added.len(),
{
    if k < added.len() - 1 {
        lemma_hash_present(objects, added.drop_last(), k);
    }
}

/// Objects whose hashes are in the store do not change it.
proof fn lemma_nothing_added(objects: Map<Seq<u8>, ObjectView>, added: Seq<ObjectView>)
    requires
        forall|i: int| 0 <= i < added.len() ==> objects.contains_key((#[trigger] added[i]).hash),
    ensures
        after_objects(objects, added) == objects,
    decreases added.len(),
{
    if added.len() > 0 {
        let front = added.drop_last();
        assert forall|i: int| 0 <= i < front.len() implies objects.contains_key(
            (#[trigger] front[i]).hash,
        ) by {
            assert(front[i] == added[i]);
        }
        lemma_nothing_added(objects, front);
        assert(added[added.len() - 1] == added.last());
    }
}

/// A deleted asset is gone, and nothing else is: a deletion removes a row where there was an
/// asset, a second one finds nothing, and every other asset is read as before.
pub proof fn law_delete_asset(tables: Tables, key: Seq<char>, other: Seq<char>, data: Seq<u8>)
    ensures
        ({
            let after = after_request(tables, RequestView::DeleteAsset { key });
            &&& found_recipe(after, key) is None
            &&& asset_count(after, key) == 0
            &&& removed_rows(tables, RequestView::DeleteAsset { key }) == asset_count(tables, key)
            &&& removed_rows(after, RequestView::DeleteAsset { key }) == 0
            &&& !reads(after, key, data)
            &&& other != key ==> asset_count(after, other) == asset_count(tables, other)
            &&& other != key ==> reads(after, other, data) == reads(tables, other, data)
            &&& after.snapshots == tables.snapshots
        }),
{
}

/// A snapshot is read back for its workspace, snapshots of other workspaces and all assets stay,
/// and a deleted snapshot is gone.
pub proof fn law_snapshot(
    tables: Tables,
    workspace: Seq<char>,
    sequence: i64,
    bytes: Seq<u8>,
    updated_at: i64,
    other: Seq<char>,
)
    ensures
        ({
            let put = after_request(
                tables,
                RequestView::PutSnapshot { workspace, sequence, bytes, updated_at },
            );
            let deleted = after_request(tables, RequestView::DeleteSnapshot { workspace });
            &&& found_snapshot(put, workspace) == Some(bytes)
            &&& put.assets == tables.assets && put.objects == tables.objects
            &&& found_snapshot(deleted, workspace) is None
            &&& removed_rows(put, RequestView::DeleteSnapshot { workspace }) == 1
            &&& removed_rows(deleted, RequestView::DeleteSnapshot { workspace }) == 0
            &&& deleted.assets == tables.assets && deleted.objects == tables.objects
            &&& other != workspace ==> {
                &&& found_snapshot(put, other) == found_snapshot(tables, other)
                &&& found_snapshot(deleted, other) == found_snapshot(tables, other)
            }
        }),
{
}

/// The content hash of an asset has 64 hexadecimal digits, and it is the same for the same bytes,
/// whatever the key, the extension, the plan and the time.
pub proof fn law_content_hash(
    first: AssetWrite,
    second: AssetWrite,
    data: Seq<u8>,
    first_key: Seq<char>,
    second_key: Seq<char>,
    first_plan: Plan,
    second_plan: Plan,
    first_time: i64,
    second_time: i64,
)
    requires
        writes(first, first_key, data.len(), sha3_256(data), first_plan, first_time),
        writes(second, second_key, data.len(), sha3_256(data), second_plan, second_time),
    ensures
        first.content_hash@ == second.content_hash@,
        first.content_hash@.len() == 64,
{
    law_hex_reads_back(sha3_256(data));
}

/// A namespace as the vault uses it is not empty and holds nothing but letters, digits and
/// underscores; one that is such already stays as it is, so cleaning it again changes nothing.
pub proof fn law_clean_name(raw: Seq<char>)
    ensures
        clean_name(raw).len() > 0,
        forall|i: int|
            0 <= i < clean_name(raw).len() ==> name_char(#[trigger] clean_name(raw)[i]),
        raw.len() > 0 && (forall|i: int| 0 <= i < raw.len() ==> name_char(#[trigger] raw[i]))
            ==> clean_name(raw) == raw,
        clean_name(clean_name(raw)) == clean_name(raw),
{
    reveal_strlit("default");
    let clean = clean_name(raw);
    if raw.len() > 0 && (forall|i: int| 0 <= i < raw.len() ==> name_char(#[trigger] raw[i])) {
        assert(clean =~= raw);
    }
    assert(clean_name(clean) =~= clean);
}

/// No text comes before itself, and of two texts that come before each other there are none.
proof fn lemma_order(a: Seq<char>, b: Seq<char>)
    ensures
        !comes_before(a, a),
        comes_before(a, b) ==> !comes_before(b, a),
    decreases a.len(),
{
    if a.len() > 0 {
        lemma_order(a.skip(1), b.skip(1));
    }
}

/// There is one list of all keys: it holds a key just where there is an asset under it, it names
/// none twice, and any other list of all keys in ascending order is the same.
pub proof fn law_list(
    tables: Tables,
    keys: Seq<Seq<char>>,
    others: Seq<Seq<char>>,
    key: Seq<char>,
)
    requires
        lists(tables, keys),
        lists(tables, others),
    ensures
        keys.contains(key) <==> asset_count(tables, key) > 0,
        keys.no_duplicates(),
        keys == others,
{
    lemma_no_duplicates(tables, keys);
    lemma_no_duplicates(tables, others);
    assert forall|x: Seq<char>| keys.contains(x) <==> others.contains(x) by {
        assert(keys.contains(x) <==> tables.assets.contains_key(x));
        assert(others.contains(x) <==> tables.assets.contains_key(x));
    }
    lemma_same_list(keys, others);
}

/// A list of all keys names none twice.
proof fn lemma_no_duplicates(tables: Tables, keys: Seq<Seq<char>>)
    requires
        lists(tables, keys),
    ensures
        keys.no_duplicates(),
{
    assert forall|i: int, j: int| 0 <= i < keys.len() && 0 <= j < keys.len() && i != j implies keys[i]
        != keys[j] by {
        lemma_order(keys[i], keys[j]);
        if i < j {
            assert(comes_before(keys[i], keys[j]));
        } else {
            assert(comes_before(keys[j], keys[i]));
        }
    }
}

/// Two ascending lists of the same texts are the same.
proof fn lemma_same_list(a: Seq<Seq<char>>, b: Seq<Seq<char>>)
    requires
        forall|x: Seq<char>| #[trigger] a.contains(x) <==> b.contains(x),
        forall|i: int, j: int|
            0 <= i < j < a.len() ==> comes_before(#[trigger] a[i], #[trigger] a[j]),
        forall|i: int, j: int|
            0 <= i < j < b.len() ==> comes_before(#[trigger] b[i], #[trigger] b[j]),
    ensures
        a == b,
    decreases a.len(),
{
    if a.len() == 0 {
        if b.len() > 0 {
            assert(b.contains(b[0]));
            assert(a.contains(b[0]));
        }
        assert(a =~= b);
    } else {
        assert(a.contains(a[a.len() - 1]));
        assert(b.len() > 0);
        let (x, y) = (a.last(), b.last());
        assert(b.contains(y));
        assert(a.contains(y));
        assert(b.contains(x));
        let i = choose|i: int| 0 <= i < a.len() && a[i] == y;
        let j = choose|j: int| 0 <= j < b.len() && b[j] == x;
        if x != y {
            assert(comes_before(a[i], a[a.len() - 1]));
            assert(comes_before(b[j], b[b.len() - 1]));
            lemma_order(x, y);
        }
        let (front, back) = (a.drop_last(), b.drop_last());
        assert forall|z: Seq<char>| #[trigger] front.contains(z) <==> back.contains(z) by {
            lemma_order(x, x);
            if front.contains(z) {
                let k = choose|k: int| 0 <= k < front.len() && front[k] == z;
                assert(a[k] == z);
                assert(comes_before(a[k], a[a.len() - 1]));
                assert(a.contains(z));
                assert(b.contains(z));
                let m = choose|m: int| 0 <= m < b.len() && b[m] == z;
                assert(back[m] == z);
            }
            if back.contains(z) {
                let k = choose|k: int| 0 <= k < back.len() && back[k] == z;
                assert(b[k] == z);
                assert(comes_before(b[k], b[b.len() - 1]));
                assert(b.contains(z));
                assert(a.contains(z));
                let m = choose|m: int| 0 <= m < a.len() && a[m] == z;
                assert(front[m] == z);
            }
        }
        lemma_same_list(front, back);
        assert(a =~= front.push(x));
        assert(b =~= back.push(y));
    }
}

/// The table that a request goes to.
pub open spec fn table_of(request: RequestView) -> Seq<char> {
    match request {
        RequestView::PutSnapshot { .. } => "_snapshot"@,
        RequestView::FindSnapshot { .. } => "_snapshot"@,
        RequestView::DeleteSnapshot { .. } => "_snapshot"@,
        _ => "_asset_keys"@,
    }
}

/// Every statement names a table that begins with the namespace and an underscore, and no key, no
/// workspace and no content is part of its text: they are its parameters.
pub proof fn law_statement_text(ns: Seq<char>, request: RequestView)
    ensures
        exists|head: Seq<char>, tail: Seq<char>|
            request_statement(ns, request).sql == #[trigger] (head + ns + table_of(request) + tail),
        forall|other: RequestView|
            #![trigger request_statement(ns, other)]
            same_kind(request, other) ==> request_statement(ns, other).sql == request_statement(
                ns,
                request,
            ).sql,
{
    let table = table_of(request);
    reveal_strlit("_asset_keys");
    reveal_strlit("_snapshot");
    match request {
        RequestView::PutAsset { .. } => {
            reveal_strlit("_asset_keys(key, recipe_hash, file_hash, size, updated_at)
           VALUES(?1, ?2, ?3, ?4, ?5)
           ON CONFLICT(key) DO UPDATE SET
             recipe_hash=?2, file_hash=?3, size=?4, updated_at=?5");
            lemma_names_table("INSERT INTO "@, ns, "_asset_keys(key, recipe_hash, file_hash, size, updated_at)
           VALUES(?1, ?2, ?3, ?4, ?5)
           ON CONFLICT(key) DO UPDATE SET
             recipe_hash=?2, file_hash=?3, size=?4, updated_at=?5"@, table);
        },
        RequestView::FindRecipe { .. } => {
            reveal_strlit("_asset_keys WHERE key=?1");
            lemma_names_table("SELECT recipe_hash FROM "@, ns, "_asset_keys WHERE key=?1"@, table);
        },
        RequestView::CountAssets { .. } => {
            reveal_strlit("_asset_keys WHERE key=?1");
            lemma_names_table("SELECT COUNT(*) FROM "@, ns, "_asset_keys WHERE key=?1"@, table);
        },
        RequestView::DeleteAsset { .. } => {
            reveal_strlit("_asset_keys WHERE key=?1");
            lemma_names_table("DELETE FROM "@, ns, "_asset_keys WHERE key=?1"@, table);
        },
        RequestView::ListKeys => {
            reveal_strlit("_asset_keys ORDER BY key");
            lemma_names_table("SELECT key FROM "@, ns, "_asset_keys ORDER BY key"@, table);
        },
        RequestView::PutSnapshot { .. } => {
            reveal_strlit("_snapshot(workspace, sequence, bytes, updated_at)
           VALUES(?1, ?2, ?3, ?4)
           ON CONFLICT(workspace) DO UPDATE SET sequence=?2, bytes=?3, updated_at=?4");
            lemma_names_table("INSERT INTO "@, ns, "_snapshot(workspace, sequence, bytes, updated_at)
           VALUES(?1, ?2, ?3, ?4)
           ON CONFLICT(workspace) DO UPDATE SET sequence=?2, bytes=?3, updated_at=?4"@, table);
        },
        RequestView::FindSnapshot { .. } => {
            reveal_strlit("_snapshot WHERE workspace=?1");
            lemma_names_table("SELECT bytes FROM "@, ns, "_snapshot WHERE workspace=?1"@, table);
        },
        RequestView::DeleteSnapshot { .. } => {
            reveal_strlit("_snapshot WHERE workspace=?1");
            lemma_names_table("DELETE FROM "@, ns, "_snapshot WHERE workspace=?1"@, table);
        },
    }
}

/// A table stands in a statement where the part behind the namespace begins with its name.
proof fn lemma_names_table(head: Seq<char>, ns: Seq<char>, rest: Seq<char>, table: Seq<char>)
    requires
        table.len() <= rest.len(),
        forall|i: int| 0 <= i < table.len() ==> rest[i] == #[trigger] table[i],
    ensures
        exists|tail: Seq<char>| head + ns + rest == #[trigger] (head + ns + table + tail),
{
    let tail = rest.skip(table.len() as int);
    assert(head + ns + rest =~= head + ns + table + tail);
}

/// Two requests of the same kind.
pub open spec fn same_kind(a: RequestView, b: RequestView) -> bool {
    match (a, b) {
        (RequestView::PutAsset { .. }, RequestView::PutAsset { .. }) => true,
        (RequestView::FindRecipe { .. }, RequestView::FindRecipe { .. }) => true,
        (RequestView::CountAssets { .. }, RequestView::CountAssets { .. }) => true,
        (RequestView::DeleteAsset { .. }, RequestView::DeleteAsset { .. }) => true,
        (RequestView::ListKeys, RequestView::ListKeys) => true,
        (RequestView::PutSnapshot { .. }, RequestView::PutSnapshot { .. }) => true,
        (RequestView::FindSnapshot { .. }, RequestView::FindSnapshot { .. }) => true,
        (RequestView::DeleteSnapshot { .. }, RequestView::DeleteSnapshot { .. }) => true,
        _ => false,
    }
}

/// The tables after an attempt to store an asset: a failed one has nothing to write.
pub open spec fn after_attempt(tables: Tables, attempt: Result<AssetWrite, VaultError>) -> Tables {
    match attempt {
        Ok(write) => after_write(tables, write),
        Err(_) => tables,
    }
}

/// An asset that could not be packed leaves the tables alone: the keys are listed, counted and
/// read as before, the one that was to be stored under among them.
pub proof fn law_failed_put_keeps_tables(
    tables: Tables,
    attempt: Result<AssetWrite, VaultError>,
    keys: Seq<Seq<char>>,
    key: Seq<char>,
    data: Seq<u8>,
)
    requires
        attempt is Err,
    ensures
        ({
            let after = after_attempt(tables, attempt);
            &&& after == tables
            &&& lists(after, keys) == lists(tables, keys)
            &&& asset_count(after, key) == asset_count(tables, key)
            &&& reads(after, key, data) == reads(tables, key, data)
        }),
{
}

/// The name of the table that a request of a vault goes to.
pub open spec fn table_name(ns: Seq<char>, request: RequestView) -> Seq<char> {
    ns + table_of(request)
}

/// Two vaults whose namespaces differ by more than the case of letters have no table in common.
/// SQLite takes names that differ by nothing but the case of ASCII letters for the same.
pub proof fn law_tables_are_apart(
    first: Seq<char>,
    second: Seq<char>,
    request: RequestView,
    other: RequestView,
)
    requires
        lower(first) != lower(second),
    ensures
        lower(table_name(first, request)) != lower(table_name(second, other)),
{
    reveal_strlit("_asset_keys");
    reveal_strlit("_snapshot");
    let (a, b) = (table_of(request), table_of(other));
    let (x, y) = (lower(first + a), lower(second + b));
    lemma_lower_joined(first, a);
    lemma_lower_joined(second, b);
    if x == y {
        assert(x.last() == lower_char(a.last()));
        assert(y.last() == lower_char(b.last()));
        assert(a == b);
        assert(first.len() == second.len());
        assert(x.take(first.len() as int) =~= lower(first));
        assert(y.take(first.len() as int) =~= lower(second));
    }
}

/// Lower case goes through texts that are joined.
proof fn lemma_lower_joined(a: Seq<char>, b: Seq<char>)
    ensures
        lower(a + b) == lower(a) + lower(b),
{
    assert(lower(a + b) =~= lower(a) + lower(b));
}

/// The tables of all vaults in a database, by the lower case of their namespaces.
pub open spec fn database_after(
    database: Map<Seq<char>, Tables>,
    ns: Seq<char>,
    request: RequestView,
) -> Map<Seq<char>, Tables> {
    database.insert(lower(ns), after_request(database[lower(ns)], request))
}

/// No tables at all hold anything.
pub open spec fn empty_tables() -> Tables {
    Tables { assets: Map::empty(), snapshots: Map::empty(), objects: Map::empty() }
}

/// The database after a vault was opened: its tables are made where they are missing.
pub open spec fn database_opened(database: Map<Seq<char>, Tables>, ns: Seq<char>) -> Map<
    Seq<char>,
    Tables,
> {
    if database.contains_key(lower(ns)) {
        database
    } else {
        database.insert(lower(ns), empty_tables())
    }
}

/// A request of one vault changes nothing for a vault whose namespace differs by more than the
/// case of letters.
pub proof fn law_vaults_are_apart(
    database: Map<Seq<char>, Tables>,
    first: Seq<char>,
    second: Seq<char>,
    request: RequestView,
)
    requires
        lower(clean_name(first)) != lower(clean_name(second)),
        database.contains_key(lower(clean_name(second))),
    ensures
        database_after(database, clean_name(first), request)[lower(clean_name(second))]
            == database[lower(clean_name(second))],
{
}

/// A vault that is opened again, under a namespace that is cleaned to the same name, finds
/// everything as it was: opening makes no table that is there, and its statements are the same.
pub proof fn law_reopened_vault_finds_all(
    database: Map<Seq<char>, Tables>,
    first: Seq<char>,
    again: Seq<char>,
    request: RequestView,
)
    requires
        clean_name(first) == clean_name(again),
        database.contains_key(lower(clean_name(first))),
    ensures
        database_opened(database, clean_name(again)) == database,
        tables_sql(clean_name(again)) == tables_sql(clean_name(first)),
        request_statement(clean_name(again), request) == request_statement(
            clean_name(first),
            request,
        ),
{
}

/// No namespace, an empty one and `default` are the same, and so are namespaces that differ by
/// nothing but characters that a table name cannot hold.
pub proof fn law_same_namespace(first: Seq<char>, second: Seq<char>)
    ensures
        clean_name(Seq::empty()) == clean_name("default"@),
        first.len() == second.len() && (forall|i: int|
            0 <= i < first.len() ==> #[trigger] first[i] == second[i] || (!name_char(first[i]) || first[i]
                == '_') && (!name_char(second[i]) || second[i] == '_')) ==> clean_name(first)
            == clean_name(second),
{
    reveal_strlit("default");
    assert(clean_name("default"@) =~= "default"@);
    if first.len() == second.len() && (forall|i: int|
        0 <= i < first.len() ==> #[trigger] first[i] == second[i] || (!name_char(first[i]) || first[i]
            == '_') && (!name_char(second[i]) || second[i] == '_')) {
        assert(clean_name(first) =~= clean_name(second));
    }
}

} // verus!
