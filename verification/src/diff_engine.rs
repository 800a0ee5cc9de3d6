//! Schema comparison: which objects must be added, altered or dropped on the target so that it
//! matches the source.
use vstd::prelude::*;
use vstd::view::View as _;

use crate::credentials::random_bytes;
use crate::error::{ErrorModel, SyncroDbError};
use crate::models::{
    contents, object_model, ChangeType, CheckConstraint, CheckConstraintModel, Column, ColumnModel,
    ForeignKeyModel, IndexModel, UniqueConstraintModel, ViewModel, ProcedureModel, FunctionModel,
    TriggerModel, SequenceModel, object_type_name, PrimaryKeyModel, primary_key_model, DatabaseSchema, DiffSummary, SchemaComparison,
    DifferenceModel, ForeignKey, Function, Index, ObjectModel, PrimaryKey, SchemaDifference,
    SchemaObject, SchemaObjectType, Sequence, StoredProcedure, Table, Trigger, UniqueConstraint,
    View,
};
use crate::dependencies::{
    depends_on, is_index_permutation, is_reordering, models, order_by_dependencies,
    respects_dependencies,
};
use crate::strings::{bool_string, bool_text, join, join_strings, opt_string_eq, strings_eq};

verus! {

// ---------------------------------------------------------------------------
// Outside calls
// ---------------------------------------------------------------------------

/// A lower-case hexadecimal digit.
pub open spec fn is_hex_digit(c: char) -> bool {
    ('0' <= c && c <= '9') || ('a' <= c && c <= 'f')
}

/// The hyphenated lower-case text of a random (version 4, RFC 4122 variant) identifier:
/// 36 characters, hyphens at positions 8, 13, 18 and 23, hexadecimal digits elsewhere, the
/// version digit `4` at 14 and one of `8`, `9`, `a`, `b` at 19.
pub open spec fn random_uuid_text(s: Seq<char>) -> bool {
    &&& s.len() == 36
    &&& forall|i: int|
        0 <= i < 36 ==> if i == 8 || i == 13 || i == 18 || i == 23 {
            s[i] == '-'
        } else {
            is_hex_digit(#[trigger] s[i])
        }
    &&& s[14] == '4'
    &&& (s[19] == '8' || s[19] == '9' || s[19] == 'a' || s[19] == 'b')
}

/// Calls `uuid::Builder::from_random_bytes` and `into_uuid`, and renders the identifier with
/// `to_string`: a version-4 identifier of the RFC 4122 variant in its hyphenated lower-case
/// form. Which hexadecimal digits the bytes give is not stated.
#[verifier::external_body]
fn uuid_from_random_bytes(bytes: [u8; 16]) -> (id: String)
    ensures
        random_uuid_text(id@),
{
    uuid::Builder::from_random_bytes(bytes).into_uuid().to_string()
}

/// The error when no identifier can be drawn for a difference.
pub open spec fn identifier_error() -> ErrorModel {
    ErrorModel::Io("Failed to generate a difference identifier"@)
}

/// A fresh random identifier, or `None` where the system's source of randomness fails.
fn draw_identifier() -> (r: Option<String>)
    ensures
        r matches Some(id) ==> random_uuid_text(id@),
{
    match random_bytes(16) {
        Some(b) => {
            let mut bytes = [0u8; 16];
            for i in 0..16
                invariant
                    b@.len() == 16,
            {
                bytes.set(i, b[i]);
            }
            Some(uuid_from_random_bytes(bytes))
        },
        None => None,
    }
}

/// Gives each difference a fresh identifier; nothing else changes. Fails when the source of
/// randomness does; with nothing to identify it draws nothing and succeeds.
fn assign_identifiers(differences: &mut Vec<SchemaDifference>) -> (r: Result<(), SyncroDbError>)
    ensures
        contents(final(differences)@) == contents(old(differences)@),
        old(differences)@.len() == 0 ==> r is Ok,
        match r {
            Ok(()) => forall|i: int|
                0 <= i < final(differences)@.len() ==> random_uuid_text(
                    (#[trigger] final(differences)@[i])@.id,
                ),
            Err(e) => e@ == identifier_error(),
        },
{
    let n = differences.len();
    let ghost start = differences@;
    for i in 0..n
        invariant
            n == differences.len(),
            start == old(differences)@,
            n == start.len(),
            forall|j: int| 0 <= j < n ==> (#[trigger] differences@[j])@.content() == start[j]@.content(),
            forall|j: int| 0 <= j < i ==> random_uuid_text((#[trigger] differences@[j])@.id),
    {
        match draw_identifier() {
            Some(id) => {
                let mut d = differences.remove(i);
                d.id = id;
                differences.insert(i, d);
            },
            None => {
                assert(contents(differences@) =~= contents(start));
                return Err(SyncroDbError::Io(String::from_str("Failed to generate a difference identifier")));
            },
        }
    }
    assert(contents(differences@) =~= contents(start));
    Ok(())
}

/// The text that `format!("{:?}", s)` gives for a string `s`: `s` in double quotes, with the
/// characters that need it escaped.
pub uninterp spec fn debug_text(s: Seq<char>) -> Seq<char>;

/// Calls std's `Debug` formatting of `str` (`format!("{:?}", s)`); the result is named
/// `debug_text`, whose escape rules are not spelled out here.
#[verifier::external_body]
fn debug_string(s: &str) -> (r: String)
    ensures
        r@ == debug_text(s@),
{
    format!("{:?}", s)
}

// ---------------------------------------------------------------------------
// Building differences
// ---------------------------------------------------------------------------

/// A difference with an empty identifier.
pub open spec fn diff_model(
    object_type: SchemaObjectType,
    object_name: Seq<char>,
    change_type: ChangeType,
    source_value: Option<ObjectModel>,
    target_value: Option<ObjectModel>,
    details: Seq<char>,
    destructive: bool,
) -> DifferenceModel {
    DifferenceModel {
        id: Seq::empty(),
        object_type,
        object_name,
        change_type,
        source_value,
        target_value,
        details,
        destructive,
    }
}

fn make_difference(
    object_type: SchemaObjectType,
    object_name: String,
    change_type: ChangeType,
    source_value: Option<SchemaObject>,
    target_value: Option<SchemaObject>,
    details: String,
    destructive: bool,
) -> (d: SchemaDifference)
    ensures
        d@.content() == diff_model(
            object_type,
            object_name@,
            change_type,
            object_model(source_value),
            object_model(target_value),
            details@,
            destructive,
        ),
        d@.id.len() == 0,
{
    SchemaDifference {
        id: String::new(),
        object_type,
        object_name,
        change_type,
        source_value,
        target_value,
        details,
        destructive,
    }
}

/// `a.b`, the way qualified names are written.
pub open spec fn dotted(a: Seq<char>, b: Seq<char>) -> Seq<char> {
    a + "."@ + b
}

fn dotted_string(a: &str, b: &str) -> (r: String)
    ensures
        r@ == dotted(a@, b@),
{
    let mut r = String::from_str(a);
    r.append(".");
    r.append(b);
    r
}

/// `a` followed by `b`.
fn concat(a: &str, b: &str) -> (r: String)
    ensures
        r@ == a@ + b@,
{
    let mut r = String::from_str(a);
    r.append(b);
    r
}

/// `lead` + `name` + `tail`.
fn framed(lead: &str, name: &str, tail: &str) -> (r: String)
    ensures
        r@ == lead@ + name@ + tail@,
{
    let mut r = String::from_str(lead);
    r.append(name);
    r.append(tail);
    r
}

pub proof fn lemma_contents_push(s: Seq<SchemaDifference>, d: SchemaDifference)
    ensures
        contents(s.push(d)) == contents(s).push(d@.content()),
{
    assert(contents(s.push(d)) =~= contents(s).push(d@.content()));
}

pub proof fn lemma_contents_add(a: Seq<SchemaDifference>, b: Seq<SchemaDifference>)
    ensures
        contents(a + b) == contents(a) + contents(b),
{
    assert(contents(a + b) =~= contents(a) + contents(b));
}

fn push_difference(out: &mut Vec<SchemaDifference>, d: SchemaDifference)
    ensures
        contents(final(out)@) == contents(old(out)@).push(d@.content()),
{
    let ghost before = out@;
    out.push(d);
    proof {
        lemma_contents_push(before, d);
    }
}

fn append_differences(out: &mut Vec<SchemaDifference>, more: Vec<SchemaDifference>)
    ensures
        contents(final(out)@) == contents(old(out)@) + contents(more@),
{
    let mut more = more;
    let ghost before = out@;
    let ghost added = more@;
    out.append(&mut more);
    proof {
        lemma_contents_add(before, added);
    }
}

// ---------------------------------------------------------------------------
// Matching objects by key
// ---------------------------------------------------------------------------

/// Index of the last key equal to `k`, or -1.
pub open spec fn last_key(keys: Seq<Seq<char>>, k: Seq<char>) -> int
    decreases keys.len(),
{
    if keys.len() == 0 {
        -1
    } else if keys.last() == k {
        keys.len() - 1
    } else {
        last_key(keys.drop_last(), k)
    }
}

/// Item `i` is the one that a map from keys to items keeps: the last item with its key.
pub open spec fn kept(keys: Seq<Seq<char>>, i: int) -> bool {
    last_key(keys, keys[i]) == i
}

pub proof fn lemma_last_key_bounds(keys: Seq<Seq<char>>, k: Seq<char>)
    ensures
        -1 <= last_key(keys, k) < keys.len(),
        last_key(keys, k) >= 0 ==> keys[last_key(keys, k)] == k,
        forall|j: int| last_key(keys, k) < j < keys.len() ==> keys[j] != k,
    decreases keys.len(),
{
    if keys.len() > 0 && keys.last() != k {
        lemma_last_key_bounds(keys.drop_last(), k);
        assert forall|j: int| last_key(keys, k) < j < keys.len() implies keys[j] != k by {
            if j < keys.len() - 1 {
                assert(keys[j] == keys.drop_last()[j]);
            }
        }
    }
}

/// An object that the engine matches between the two schemas by a key.
pub trait DiffItem: Sized {
    /// The key under which the object is matched.
    spec fn item_key(&self) -> Seq<char>;

    /// The difference that adds this object (present in the source only).
    spec fn addition(&self, table_key: Seq<char>) -> DifferenceModel;

    /// The difference that drops this object (present in the target only).
    spec fn deletion(&self, table_key: Seq<char>) -> DifferenceModel;

    fn key(&self) -> (k: String)
        ensures
            k@ == self.item_key(),
    ;

    fn added(&self, table_key: &str) -> (d: SchemaDifference)
        ensures
            d@.content() == self.addition(table_key@),
    ;

    fn removed(&self, table_key: &str) -> (d: SchemaDifference)
        ensures
            d@.content() == self.deletion(table_key@),
    ;

    proof fn lemma_classified(&self, table_key: Seq<char>)
        ensures
            self.addition(table_key).change_type == ChangeType::Addition,
            self.deletion(table_key).change_type == ChangeType::Deletion,
            classified(self.addition(table_key)),
            classified(self.deletion(table_key)),
    ;
}

/// An object whose two versions are compared field by field when both schemas hold it.
pub trait ComparableItem: DiffItem {
    /// The differences between this (source) version and the target version.
    spec fn modification(&self, target: &Self, table_key: Seq<char>) -> Seq<DifferenceModel>;

    fn changed(&self, target: &Self, table_key: &str) -> (r: Vec<SchemaDifference>)
        ensures
            contents(r@) == self.modification(target, table_key@),
    ;

    proof fn lemma_modifications_classified(&self, target: &Self, table_key: Seq<char>)
        ensures
            forall|k: int|
                0 <= k < self.modification(target, table_key).len() ==> (#[trigger] self.modification(
                    target,
                    table_key,
                )[k]).change_type == ChangeType::Modification,
    ;

    proof fn lemma_unchanged(&self, table_key: Seq<char>)
        ensures
            self.modification(self, table_key) == Seq::<DifferenceModel>::empty(),
    ;
}

/// An addition never destroys data; a drop does, unless it drops an index.
pub open spec fn classified(d: DifferenceModel) -> bool {
    &&& d.change_type == ChangeType::Addition ==> !d.destructive
    &&& d.change_type == ChangeType::Deletion && d.object_type != SchemaObjectType::Index
        ==> d.destructive
}

pub open spec fn all_classified(s: Seq<DifferenceModel>) -> bool {
    forall|k: int| 0 <= k < s.len() ==> #[trigger] classified(s[k])
}

pub open spec fn keys_of<T: DiffItem>(items: Seq<T>) -> Seq<Seq<char>> {
    items.map_values(|t: T| t.item_key())
}

/// Additions among the first `n` source objects: kept, and no target object has their key.
pub open spec fn additions_upto<T: DiffItem>(
    src: Seq<T>,
    tgt: Seq<T>,
    table_key: Seq<char>,
    n: nat,
) -> Seq<DifferenceModel>
    decreases n,
{
    if n == 0 {
        Seq::empty()
    } else {
        let i = n - 1;
        let rest = additions_upto(src, tgt, table_key, (n - 1) as nat);
        if kept(keys_of(src), i) && last_key(keys_of(tgt), keys_of(src)[i]) < 0 {
            rest.push(src[i].addition(table_key))
        } else {
            rest
        }
    }
}

/// Deletions among the first `n` target objects: kept, and no source object has their key.
pub open spec fn deletions_upto<T: DiffItem>(
    src: Seq<T>,
    tgt: Seq<T>,
    table_key: Seq<char>,
    n: nat,
) -> Seq<DifferenceModel>
    decreases n,
{
    if n == 0 {
        Seq::empty()
    } else {
        let j = n - 1;
        let rest = deletions_upto(src, tgt, table_key, (n - 1) as nat);
        if kept(keys_of(tgt), j) && last_key(keys_of(src), keys_of(tgt)[j]) < 0 {
            rest.push(tgt[j].deletion(table_key))
        } else {
            rest
        }
    }
}

/// Modifications among the first `n` source objects: kept, compared with the target object
/// kept under the same key.
pub open spec fn modifications_upto<T: ComparableItem>(
    src: Seq<T>,
    tgt: Seq<T>,
    table_key: Seq<char>,
    n: nat,
) -> Seq<DifferenceModel>
    decreases n,
{
    if n == 0 {
        Seq::empty()
    } else {
        let i = n - 1;
        let rest = modifications_upto(src, tgt, table_key, (n - 1) as nat);
        let j = last_key(keys_of(tgt), keys_of(src)[i]);
        if kept(keys_of(src), i) && j >= 0 {
            rest + src[i].modification(&tgt[j], table_key)
        } else {
            rest
        }
    }
}

/// All differences between two lists of objects of one kind.
pub open spec fn item_differences<T: ComparableItem>(
    src: Seq<T>,
    tgt: Seq<T>,
    table_key: Seq<char>,
) -> Seq<DifferenceModel> {
    additions_upto(src, tgt, table_key, src.len()) + deletions_upto(src, tgt, table_key, tgt.len())
        + modifications_upto(src, tgt, table_key, src.len())
}

fn item_keys<T: DiffItem>(items: &Vec<T>) -> (r: Vec<String>)
    ensures
        r.deep_view() == keys_of(items@),
{
    let mut r: Vec<String> = Vec::new();
    for i in 0..items.len()
        invariant
            r.len() == i,
            forall|j: int| 0 <= j < i ==> #[trigger] r@[j]@ == items@[j].item_key(),
    {
        r.push(items[i].key());
    }
    assert(r.deep_view() =~= keys_of(items@));
    r
}

fn find_last_key(keys: &Vec<String>, k: &String) -> (r: Option<usize>)
    ensures
        match r {
            Some(j) => j < keys.len() && j as int == last_key(keys.deep_view(), k@),
            None => last_key(keys.deep_view(), k@) < 0,
        },
{
    let ghost ks = keys.deep_view();
    let mut i = keys.len();
    assert(ks.take(i as int) == ks);
    while i > 0
        invariant
            i <= keys.len(),
            ks == keys.deep_view(),
            last_key(ks, k@) == last_key(ks.take(i as int), k@),
        decreases i,
    {
        assert(ks.take(i as int).drop_last() == ks.take(i - 1));
        if keys[i - 1] == *k {
            return Some(i - 1);
        }
        i = i - 1;
    }
    None
}

/// The additions, then the deletions, between two lists of objects of one kind.
fn additions_and_deletions<T: DiffItem>(table_key: &str, src: &Vec<T>, tgt: &Vec<T>) -> (r: Vec<
    SchemaDifference,
>)
    ensures
        contents(r@) == additions_upto(src@, tgt@, table_key@, src.len() as nat) + deletions_upto(
            src@,
            tgt@,
            table_key@,
            tgt.len() as nat,
        ),
{
    let src_keys = item_keys(src);
    let tgt_keys = item_keys(tgt);
    let mut out: Vec<SchemaDifference> = Vec::new();
    for i in 0..src.len()
        invariant
            src_keys.deep_view() == keys_of(src@),
            tgt_keys.deep_view() == keys_of(tgt@),
            contents(out@) == additions_upto(src@, tgt@, table_key@, i as nat),
    {
        proof {
            assert(src_keys.deep_view()[i as int] == src_keys@[i as int]@);
        }
        let kept_here = find_last_key(&src_keys, &src_keys[i]);
        let absent = find_last_key(&tgt_keys, &src_keys[i]).is_none();
        proof {
            lemma_last_key_bounds(keys_of(src@), keys_of(src@)[i as int]);
            assert(kept_here == Some(i) <==> kept(keys_of(src@), i as int));
            assert(absent <==> last_key(keys_of(tgt@), keys_of(src@)[i as int]) < 0);
        }
        if kept_here == Some(i) && absent {
            push_difference(&mut out, src[i].added(table_key));
        }
    }
    let ghost added = contents(out@);
    let mut dels: Vec<SchemaDifference> = Vec::new();
    for j in 0..tgt.len()
        invariant
            src_keys.deep_view() == keys_of(src@),
            tgt_keys.deep_view() == keys_of(tgt@),
            contents(dels@) == deletions_upto(src@, tgt@, table_key@, j as nat),
    {
        proof {
            assert(tgt_keys.deep_view()[j as int] == tgt_keys@[j as int]@);
        }
        let kept_here = find_last_key(&tgt_keys, &tgt_keys[j]);
        let absent = find_last_key(&src_keys, &tgt_keys[j]).is_none();
        proof {
            lemma_last_key_bounds(keys_of(tgt@), keys_of(tgt@)[j as int]);
            assert(kept_here == Some(j) <==> kept(keys_of(tgt@), j as int));
        }
        if kept_here == Some(j) && absent {
            push_difference(&mut dels, tgt[j].removed(table_key));
        }
    }
    append_differences(&mut out, dels);
    out
}

proof fn lemma_modifications_step<T: ComparableItem>(
    src: Seq<T>,
    tgt: Seq<T>,
    table_key: Seq<char>,
    i: int,
)
    requires
        0 <= i < src.len(),
    ensures
        modifications_upto(src, tgt, table_key, (i + 1) as nat) == {
            let rest = modifications_upto(src, tgt, table_key, i as nat);
            let j = last_key(keys_of(tgt), keys_of(src)[i]);
            if kept(keys_of(src), i) && j >= 0 {
                rest + src[i].modification(&tgt[j], table_key)
            } else {
                rest
            }
        },
{
}

/// All differences between two lists of comparable objects.
#[verifier::spinoff_prover]
fn compare_items<T: ComparableItem>(table_key: &str, src: &Vec<T>, tgt: &Vec<T>) -> (r: Vec<
    SchemaDifference,
>)
    ensures
        contents(r@) == item_differences(src@, tgt@, table_key@),
{
    let mut out = additions_and_deletions(table_key, src, tgt);
    let src_keys = item_keys(src);
    let tgt_keys = item_keys(tgt);
    let mut mods: Vec<SchemaDifference> = Vec::new();
    for i in 0..src.len()
        invariant
            src_keys.deep_view() == keys_of(src@),
            tgt_keys.deep_view() == keys_of(tgt@),
            contents(mods@) == modifications_upto(src@, tgt@, table_key@, i as nat),
    {
        let ghost key = keys_of(src@)[i as int];
        proof {
            assert(src_keys.deep_view()[i as int] == src_keys@[i as int]@);
            lemma_last_key_bounds(keys_of(src@), key);
            lemma_last_key_bounds(keys_of(tgt@), key);
            lemma_modifications_step(src@, tgt@, table_key@, i as int);
        }
        let kept_here = find_last_key(&src_keys, &src_keys[i]);
        let found = find_last_key(&tgt_keys, &src_keys[i]);
        if kept_here == Some(i) {
            match found {
                Some(j) => {
                    assert(j as int == last_key(keys_of(tgt@), key));
                    let changed = src[i].changed(&tgt[j], table_key);
                    append_differences(&mut mods, changed);
                    assert(contents(mods@) == modifications_upto(src@, tgt@, table_key@, (i + 1) as nat));
                },
                None => {},
            }
        }
    }
    append_differences(&mut out, mods);
    out
}


// ---------------------------------------------------------------------------
// Columns
// ---------------------------------------------------------------------------

/// Two versions of a column are the same when type, nullability, default and
/// auto-increment agree.
pub open spec fn columns_equal_spec(a: ColumnModel, b: ColumnModel) -> bool {
    a.data_type == b.data_type && a.nullable == b.nullable && a.default_value == b.default_value
        && a.auto_increment == b.auto_increment
}

/// Changing the type, or making a nullable column `NOT NULL`, can lose or reject data.
pub open spec fn column_change_destructive(source: ColumnModel, target: ColumnModel) -> bool {
    source.data_type != target.data_type || (!source.nullable && target.nullable)
}

/// `Some("..")` or `None`, as `Debug` prints an optional string.
pub open spec fn debug_opt_text(o: Option<Seq<char>>) -> Seq<char> {
    match o {
        Some(x) => "Some("@ + debug_text(x) + ")"@,
        None => "None"@,
    }
}

/// The list of changes from the target version of a column to the source version.
pub open spec fn column_changes(source: ColumnModel, target: ColumnModel) -> Seq<Seq<char>> {
    let t = if source.data_type != target.data_type {
        seq!["type: "@ + target.data_type + " -> "@ + source.data_type]
    } else {
        Seq::empty()
    };
    let n = if source.nullable != target.nullable {
        seq!["nullable: "@ + bool_text(target.nullable) + " -> "@ + bool_text(source.nullable)]
    } else {
        Seq::empty()
    };
    let d = if source.default_value != target.default_value {
        seq![
            "default: "@ + debug_opt_text(target.default_value) + " -> "@ + debug_opt_text(
                source.default_value,
            ),
        ]
    } else {
        Seq::empty()
    };
    t + n + d
}

pub open spec fn column_change_details(source: ColumnModel, target: ColumnModel) -> Seq<char> {
    "Column modified: "@ + join(column_changes(source, target), ", "@)
}

fn columns_equal(a: &Column, b: &Column) -> (r: bool)
    ensures
        r == columns_equal_spec(a@, b@),
{
    a.data_type == b.data_type && a.nullable == b.nullable && opt_string_eq(
        &a.default_value,
        &b.default_value,
    ) && a.auto_increment == b.auto_increment
}

fn is_column_change_destructive(source: &Column, target: &Column) -> (r: bool)
    ensures
        r == column_change_destructive(source@, target@),
{
    if source.data_type != target.data_type {
        return true;
    }
    if !source.nullable && target.nullable {
        return true;
    }
    false
}

fn debug_opt_string(o: &Option<String>) -> (r: String)
    ensures
        r@ == debug_opt_text(o.deep_view()),
{
    match o {
        Some(x) => {
            let inner = debug_string(x.as_str());
            framed("Some(", inner.as_str(), ")")
        },
        None => String::from_str("None"),
    }
}

fn get_column_change_details(source: &Column, target: &Column) -> (r: String)
    ensures
        r@ == column_change_details(source@, target@),
{
    let mut changes: Vec<String> = Vec::new();
    let ghost s = source@;
    let ghost t = target@;
    if source.data_type != target.data_type {
        let mut c = String::from_str("type: ");
        c.append(target.data_type.as_str());
        c.append(" -> ");
        c.append(source.data_type.as_str());
        changes.push(c);
    }
    let ghost after_type = changes.deep_view();
    if source.nullable != target.nullable {
        let tn = bool_string(target.nullable);
        let sn = bool_string(source.nullable);
        let mut c = String::from_str("nullable: ");
        c.append(tn.as_str());
        c.append(" -> ");
        c.append(sn.as_str());
        changes.push(c);
    }
    let ghost after_null = changes.deep_view();
    if !opt_string_eq(&source.default_value, &target.default_value) {
        let td = debug_opt_string(&target.default_value);
        let sd = debug_opt_string(&source.default_value);
        let mut c = String::from_str("default: ");
        c.append(td.as_str());
        c.append(" -> ");
        c.append(sd.as_str());
        changes.push(c);
    }
    proof {
        let t_part = if s.data_type != t.data_type {
            seq!["type: "@ + t.data_type + " -> "@ + s.data_type]
        } else {
            Seq::<Seq<char>>::empty()
        };
        let n_part = if s.nullable != t.nullable {
            seq!["nullable: "@ + bool_text(t.nullable) + " -> "@ + bool_text(s.nullable)]
        } else {
            Seq::<Seq<char>>::empty()
        };
        assert(after_type =~= t_part);
        assert(after_null =~= t_part + n_part);
        assert(changes.deep_view() =~= column_changes(s, t));
    }
    let joined = join_strings(&changes, ", ");
    concat("Column modified: ", joined.as_str())
}

impl DiffItem for Column {
    proof fn lemma_classified(&self, table_key: Seq<char>) {
    }

    open spec fn item_key(&self) -> Seq<char> {
        self.name@
    }

    open spec fn addition(&self, table_key: Seq<char>) -> DifferenceModel {
        diff_model(
            SchemaObjectType::Column,
            dotted(table_key, self.name@),
            ChangeType::Addition,
            Some(ObjectModel::Column(self@)),
            None,
            "Column "@ + self.name@ + " needs to be added to table "@ + table_key,
            false,
        )
    }

    open spec fn deletion(&self, table_key: Seq<char>) -> DifferenceModel {
        diff_model(
            SchemaObjectType::Column,
            dotted(table_key, self.name@),
            ChangeType::Deletion,
            None,
            Some(ObjectModel::Column(self@)),
            "Column "@ + self.name@ + " needs to be dropped from table "@ + table_key,
            true,
        )
    }

    fn key(&self) -> (k: String) {
        self.name.clone()
    }

    fn added(&self, table_key: &str) -> (d: SchemaDifference) {
        let details = framed("Column ", self.name.as_str(), " needs to be added to table ");
        let details = concat(details.as_str(), table_key);
        make_difference(
            SchemaObjectType::Column,
            dotted_string(table_key, self.name.as_str()),
            ChangeType::Addition,
            Some(SchemaObject::Column(self.clone())),
            None,
            details,
            false,
        )
    }

    fn removed(&self, table_key: &str) -> (d: SchemaDifference) {
        let details = framed("Column ", self.name.as_str(), " needs to be dropped from table ");
        let details = concat(details.as_str(), table_key);
        make_difference(
            SchemaObjectType::Column,
            dotted_string(table_key, self.name.as_str()),
            ChangeType::Deletion,
            None,
            Some(SchemaObject::Column(self.clone())),
            details,
            true,
        )
    }
}

impl ComparableItem for Column {
    proof fn lemma_modifications_classified(&self, target: &Self, table_key: Seq<char>) {
    }

    proof fn lemma_unchanged(&self, table_key: Seq<char>) {
    }

    open spec fn modification(&self, target: &Self, table_key: Seq<char>) -> Seq<DifferenceModel> {
        if columns_equal_spec(self@, target@) {
            Seq::empty()
        } else {
            seq![
                diff_model(
                    SchemaObjectType::Column,
                    dotted(table_key, self.name@),
                    ChangeType::Modification,
                    Some(ObjectModel::Column(self@)),
                    Some(ObjectModel::Column(target@)),
                    column_change_details(self@, target@),
                    column_change_destructive(self@, target@),
                ),
            ]
        }
    }

    fn changed(&self, target: &Self, table_key: &str) -> (r: Vec<SchemaDifference>) {
        let mut r: Vec<SchemaDifference> = Vec::new();
        if !columns_equal(self, target) {
            let destructive = is_column_change_destructive(self, target);
            let details = get_column_change_details(self, target);
            let d = make_difference(
                SchemaObjectType::Column,
                dotted_string(table_key, self.name.as_str()),
                ChangeType::Modification,
                Some(SchemaObject::Column(self.clone())),
                Some(SchemaObject::Column(target.clone())),
                details,
                destructive,
            );
            push_difference(&mut r, d);
        }
        assert(contents(r@) =~= self.modification(target, table_key@));
        r
    }
}


// ---------------------------------------------------------------------------
// Foreign keys
// ---------------------------------------------------------------------------

pub open spec fn foreign_keys_equal_spec(a: ForeignKeyModel, b: ForeignKeyModel) -> bool {
    a.columns == b.columns && a.referenced_table == b.referenced_table
        && a.referenced_columns == b.referenced_columns && a.on_delete == b.on_delete
        && a.on_update == b.on_update
}

fn foreign_keys_equal(a: &ForeignKey, b: &ForeignKey) -> (r: bool)
    ensures
        r == foreign_keys_equal_spec(a@, b@),
{
    strings_eq(&a.columns, &b.columns) && a.referenced_table == b.referenced_table && strings_eq(
        &a.referenced_columns,
        &b.referenced_columns,
    ) && a.on_delete == b.on_delete && a.on_update == b.on_update
}

impl DiffItem for ForeignKey {
    proof fn lemma_classified(&self, table_key: Seq<char>) {
    }

    open spec fn item_key(&self) -> Seq<char> {
        self.name@
    }

    open spec fn addition(&self, table_key: Seq<char>) -> DifferenceModel {
        diff_model(
            SchemaObjectType::ForeignKey,
            dotted(table_key, self.name@),
            ChangeType::Addition,
            Some(ObjectModel::ForeignKey(self@)),
            None,
            "Foreign key "@ + self.name@ + " needs to be added"@,
            false,
        )
    }

    open spec fn deletion(&self, table_key: Seq<char>) -> DifferenceModel {
        diff_model(
            SchemaObjectType::ForeignKey,
            dotted(table_key, self.name@),
            ChangeType::Deletion,
            None,
            Some(ObjectModel::ForeignKey(self@)),
            "Foreign key "@ + self.name@ + " needs to be dropped"@,
            true,
        )
    }

    fn key(&self) -> (k: String) {
        self.name.clone()
    }

    fn added(&self, table_key: &str) -> (d: SchemaDifference) {
        make_difference(
            SchemaObjectType::ForeignKey,
            dotted_string(table_key, self.name.as_str()),
            ChangeType::Addition,
            Some(SchemaObject::ForeignKey(self.clone())),
            None,
            framed("Foreign key ", self.name.as_str(), " needs to be added"),
            false,
        )
    }

    fn removed(&self, table_key: &str) -> (d: SchemaDifference) {
        make_difference(
            SchemaObjectType::ForeignKey,
            dotted_string(table_key, self.name.as_str()),
            ChangeType::Deletion,
            None,
            Some(SchemaObject::ForeignKey(self.clone())),
            framed("Foreign key ", self.name.as_str(), " needs to be dropped"),
            true,
        )
    }
}

impl ComparableItem for ForeignKey {
    proof fn lemma_modifications_classified(&self, target: &Self, table_key: Seq<char>) {
    }

    proof fn lemma_unchanged(&self, table_key: Seq<char>) {
    }

    open spec fn modification(&self, target: &Self, table_key: Seq<char>) -> Seq<DifferenceModel> {
        if foreign_keys_equal_spec(self@, target@) {
            Seq::empty()
        } else {
            seq![
                diff_model(
                    SchemaObjectType::ForeignKey,
                    dotted(table_key, self.name@),
                    ChangeType::Modification,
                    Some(ObjectModel::ForeignKey(self@)),
                    Some(ObjectModel::ForeignKey(target@)),
                    "Foreign key "@ + self.name@ + " has been modified"@,
                    true,
                ),
            ]
        }
    }

    fn changed(&self, target: &Self, table_key: &str) -> (r: Vec<SchemaDifference>) {
        let mut r: Vec<SchemaDifference> = Vec::new();
        if !foreign_keys_equal(self, target) {
            let d = make_difference(
                SchemaObjectType::ForeignKey,
                dotted_string(table_key, self.name.as_str()),
                ChangeType::Modification,
                Some(SchemaObject::ForeignKey(self.clone())),
                Some(SchemaObject::ForeignKey(target.clone())),
                framed("Foreign key ", self.name.as_str(), " has been modified"),
                true,
            );
            push_difference(&mut r, d);
        }
        assert(contents(r@) =~= self.modification(target, table_key@));
        r
    }
}

// ---------------------------------------------------------------------------
// Unique constraints
// ---------------------------------------------------------------------------

pub open spec fn unique_constraints_equal_spec(a: UniqueConstraintModel, b: UniqueConstraintModel) -> bool {
    a.columns == b.columns
}

fn unique_constraints_equal(a: &UniqueConstraint, b: &UniqueConstraint) -> (r: bool)
    ensures
        r == unique_constraints_equal_spec(a@, b@),
{
    strings_eq(&a.columns, &b.columns)
}

impl DiffItem for UniqueConstraint {
    proof fn lemma_classified(&self, table_key: Seq<char>) {
    }

    open spec fn item_key(&self) -> Seq<char> {
        self.name@
    }

    open spec fn addition(&self, table_key: Seq<char>) -> DifferenceModel {
        diff_model(
            SchemaObjectType::UniqueConstraint,
            dotted(table_key, self.name@),
            ChangeType::Addition,
            Some(ObjectModel::UniqueConstraint(self@)),
            None,
            "Unique constraint "@ + self.name@ + " needs to be added"@,
            false,
        )
    }

    open spec fn deletion(&self, table_key: Seq<char>) -> DifferenceModel {
        diff_model(
            SchemaObjectType::UniqueConstraint,
            dotted(table_key, self.name@),
            ChangeType::Deletion,
            None,
            Some(ObjectModel::UniqueConstraint(self@)),
            "Unique constraint "@ + self.name@ + " needs to be dropped"@,
            true,
        )
    }

    fn key(&self) -> (k: String) {
        self.name.clone()
    }

    fn added(&self, table_key: &str) -> (d: SchemaDifference) {
        make_difference(
            SchemaObjectType::UniqueConstraint,
            dotted_string(table_key, self.name.as_str()),
            ChangeType::Addition,
            Some(SchemaObject::UniqueConstraint(self.clone())),
            None,
            framed("Unique constraint ", self.name.as_str(), " needs to be added"),
            false,
        )
    }

    fn removed(&self, table_key: &str) -> (d: SchemaDifference) {
        make_difference(
            SchemaObjectType::UniqueConstraint,
            dotted_string(table_key, self.name.as_str()),
            ChangeType::Deletion,
            None,
            Some(SchemaObject::UniqueConstraint(self.clone())),
            framed("Unique constraint ", self.name.as_str(), " needs to be dropped"),
            true,
        )
    }
}

impl ComparableItem for UniqueConstraint {
    proof fn lemma_modifications_classified(&self, target: &Self, table_key: Seq<char>) {
    }

    proof fn lemma_unchanged(&self, table_key: Seq<char>) {
    }

    open spec fn modification(&self, target: &Self, table_key: Seq<char>) -> Seq<DifferenceModel> {
        if unique_constraints_equal_spec(self@, target@) {
            Seq::empty()
        } else {
            seq![
                diff_model(
                    SchemaObjectType::UniqueConstraint,
                    dotted(table_key, self.name@),
                    ChangeType::Modification,
                    Some(ObjectModel::UniqueConstraint(self@)),
                    Some(ObjectModel::UniqueConstraint(target@)),
                    "Unique constraint "@ + self.name@ + " has been modified"@,
                    true,
                ),
            ]
        }
    }

    fn changed(&self, target: &Self, table_key: &str) -> (r: Vec<SchemaDifference>) {
        let mut r: Vec<SchemaDifference> = Vec::new();
        if !unique_constraints_equal(self, target) {
            let d = make_difference(
                SchemaObjectType::UniqueConstraint,
                dotted_string(table_key, self.name.as_str()),
                ChangeType::Modification,
                Some(SchemaObject::UniqueConstraint(self.clone())),
                Some(SchemaObject::UniqueConstraint(target.clone())),
                framed("Unique constraint ", self.name.as_str(), " has been modified"),
                true,
            );
            push_difference(&mut r, d);
        }
        assert(contents(r@) =~= self.modification(target, table_key@));
        r
    }
}

// ---------------------------------------------------------------------------
// Check constraints
// ---------------------------------------------------------------------------

pub open spec fn check_constraints_equal_spec(a: CheckConstraintModel, b: CheckConstraintModel) -> bool {
    a.expression == b.expression
}

fn check_constraints_equal(a: &CheckConstraint, b: &CheckConstraint) -> (r: bool)
    ensures
        r == check_constraints_equal_spec(a@, b@),
{
    a.expression == b.expression
}

impl DiffItem for CheckConstraint {
    proof fn lemma_classified(&self, table_key: Seq<char>) {
    }

    open spec fn item_key(&self) -> Seq<char> {
        self.name@
    }

    open spec fn addition(&self, table_key: Seq<char>) -> DifferenceModel {
        diff_model(
            SchemaObjectType::CheckConstraint,
            dotted(table_key, self.name@),
            ChangeType::Addition,
            Some(ObjectModel::CheckConstraint(self@)),
            None,
            "Check constraint "@ + self.name@ + " needs to be added"@,
            false,
        )
    }

    open spec fn deletion(&self, table_key: Seq<char>) -> DifferenceModel {
        diff_model(
            SchemaObjectType::CheckConstraint,
            dotted(table_key, self.name@),
            ChangeType::Deletion,
            None,
            Some(ObjectModel::CheckConstraint(self@)),
            "Check constraint "@ + self.name@ + " needs to be dropped"@,
            true,
        )
    }

    fn key(&self) -> (k: String) {
        self.name.clone()
    }

    fn added(&self, table_key: &str) -> (d: SchemaDifference) {
        make_difference(
            SchemaObjectType::CheckConstraint,
            dotted_string(table_key, self.name.as_str()),
            ChangeType::Addition,
            Some(SchemaObject::CheckConstraint(self.clone())),
            None,
            framed("Check constraint ", self.name.as_str(), " needs to be added"),
            false,
        )
    }

    fn removed(&self, table_key: &str) -> (d: SchemaDifference) {
        make_difference(
            SchemaObjectType::CheckConstraint,
            dotted_string(table_key, self.name.as_str()),
            ChangeType::Deletion,
            None,
            Some(SchemaObject::CheckConstraint(self.clone())),
            framed("Check constraint ", self.name.as_str(), " needs to be dropped"),
            true,
        )
    }
}

impl ComparableItem for CheckConstraint {
    proof fn lemma_modifications_classified(&self, target: &Self, table_key: Seq<char>) {
    }

    proof fn lemma_unchanged(&self, table_key: Seq<char>) {
    }

    open spec fn modification(&self, target: &Self, table_key: Seq<char>) -> Seq<DifferenceModel> {
        if check_constraints_equal_spec(self@, target@) {
            Seq::empty()
        } else {
            seq![
                diff_model(
                    SchemaObjectType::CheckConstraint,
                    dotted(table_key, self.name@),
                    ChangeType::Modification,
                    Some(ObjectModel::CheckConstraint(self@)),
                    Some(ObjectModel::CheckConstraint(target@)),
                    "Check constraint "@ + self.name@ + " has been modified"@,
                    true,
                ),
            ]
        }
    }

    fn changed(&self, target: &Self, table_key: &str) -> (r: Vec<SchemaDifference>) {
        let mut r: Vec<SchemaDifference> = Vec::new();
        if !check_constraints_equal(self, target) {
            let d = make_difference(
                SchemaObjectType::CheckConstraint,
                dotted_string(table_key, self.name.as_str()),
                ChangeType::Modification,
                Some(SchemaObject::CheckConstraint(self.clone())),
                Some(SchemaObject::CheckConstraint(target.clone())),
                framed("Check constraint ", self.name.as_str(), " has been modified"),
                true,
            );
            push_difference(&mut r, d);
        }
        assert(contents(r@) =~= self.modification(target, table_key@));
        r
    }
}

// ---------------------------------------------------------------------------
// Indexs
// ---------------------------------------------------------------------------

pub open spec fn indexes_equal_spec(a: IndexModel, b: IndexModel) -> bool {
    a.columns == b.columns && a.unique == b.unique && a.index_type == b.index_type
        && a.partial == b.partial && a.condition == b.condition
}

fn indexes_equal(a: &Index, b: &Index) -> (r: bool)
    ensures
        r == indexes_equal_spec(a@, b@),
{
    strings_eq(&a.columns, &b.columns) && a.unique == b.unique && a.index_type == b.index_type
        && a.partial == b.partial && opt_string_eq(&a.condition, &b.condition)
}

impl DiffItem for Index {
    proof fn lemma_classified(&self, table_key: Seq<char>) {
    }

    open spec fn item_key(&self) -> Seq<char> {
        self.name@
    }

    open spec fn addition(&self, table_key: Seq<char>) -> DifferenceModel {
        diff_model(
            SchemaObjectType::Index,
            dotted(table_key, self.name@),
            ChangeType::Addition,
            Some(ObjectModel::Index(self@)),
            None,
            "Index "@ + self.name@ + " needs to be added"@,
            false,
        )
    }

    open spec fn deletion(&self, table_key: Seq<char>) -> DifferenceModel {
        diff_model(
            SchemaObjectType::Index,
            dotted(table_key, self.name@),
            ChangeType::Deletion,
            None,
            Some(ObjectModel::Index(self@)),
            "Index "@ + self.name@ + " needs to be dropped"@,
            false,
        )
    }

    fn key(&self) -> (k: String) {
        self.name.clone()
    }

    fn added(&self, table_key: &str) -> (d: SchemaDifference) {
        make_difference(
            SchemaObjectType::Index,
            dotted_string(table_key, self.name.as_str()),
            ChangeType::Addition,
            Some(SchemaObject::Index(self.clone())),
            None,
            framed("Index ", self.name.as_str(), " needs to be added"),
            false,
        )
    }

    fn removed(&self, table_key: &str) -> (d: SchemaDifference) {
        make_difference(
            SchemaObjectType::Index,
            dotted_string(table_key, self.name.as_str()),
            ChangeType::Deletion,
            None,
            Some(SchemaObject::Index(self.clone())),
            framed("Index ", self.name.as_str(), " needs to be dropped"),
            false,
        )
    }
}

impl ComparableItem for Index {
    proof fn lemma_modifications_classified(&self, target: &Self, table_key: Seq<char>) {
    }

    proof fn lemma_unchanged(&self, table_key: Seq<char>) {
    }

    open spec fn modification(&self, target: &Self, table_key: Seq<char>) -> Seq<DifferenceModel> {
        if indexes_equal_spec(self@, target@) {
            Seq::empty()
        } else {
            seq![
                diff_model(
                    SchemaObjectType::Index,
                    dotted(table_key, self.name@),
                    ChangeType::Modification,
                    Some(ObjectModel::Index(self@)),
                    Some(ObjectModel::Index(target@)),
                    "Index "@ + self.name@ + " has been modified"@,
                    false,
                ),
            ]
        }
    }

    fn changed(&self, target: &Self, table_key: &str) -> (r: Vec<SchemaDifference>) {
        let mut r: Vec<SchemaDifference> = Vec::new();
        if !indexes_equal(self, target) {
            let d = make_difference(
                SchemaObjectType::Index,
                dotted_string(table_key, self.name.as_str()),
                ChangeType::Modification,
                Some(SchemaObject::Index(self.clone())),
                Some(SchemaObject::Index(target.clone())),
                framed("Index ", self.name.as_str(), " has been modified"),
                false,
            );
            push_difference(&mut r, d);
        }
        assert(contents(r@) =~= self.modification(target, table_key@));
        r
    }
}


// ---------------------------------------------------------------------------
// Views, procedures, functions, triggers and sequences
// ---------------------------------------------------------------------------

/// `Kind key tail`, the details of a change to a view, procedure, function, trigger or sequence.
pub open spec fn simple_details(t: SchemaObjectType, key: Seq<char>, tail: Seq<char>) -> Seq<char> {
    object_type_name(t) + " "@ + key + tail
}

fn simple_details_string(t: SchemaObjectType, key: &str, tail: &str) -> (r: String)
    ensures
        r@ == simple_details(t, key@, tail@),
{
    let mut r = String::from_str(t.kind_name());
    r.append(" ");
    r.append(key);
    r.append(tail);
    r
}

pub open spec fn views_equal_spec(a: ViewModel, b: ViewModel) -> bool {
    a.definition == b.definition
}

fn views_equal(a: &View, b: &View) -> (r: bool)
    ensures
        r == views_equal_spec(a@, b@),
{
    a.definition == b.definition
}

impl DiffItem for View {
    proof fn lemma_classified(&self, table_key: Seq<char>) {
    }

    open spec fn item_key(&self) -> Seq<char> {
        dotted(self.schema@, self.name@)
    }

    open spec fn addition(&self, table_key: Seq<char>) -> DifferenceModel {
        diff_model(
            SchemaObjectType::View,
            self.item_key(),
            ChangeType::Addition,
            Some(ObjectModel::View(self@)),
            None,
            simple_details(SchemaObjectType::View, self.item_key(), " needs to be added"@),
            false,
        )
    }

    open spec fn deletion(&self, table_key: Seq<char>) -> DifferenceModel {
        diff_model(
            SchemaObjectType::View,
            self.item_key(),
            ChangeType::Deletion,
            None,
            Some(ObjectModel::View(self@)),
            simple_details(SchemaObjectType::View, self.item_key(), " needs to be dropped"@),
            true,
        )
    }

    fn key(&self) -> (k: String) {
        dotted_string(self.schema.as_str(), self.name.as_str())
    }

    fn added(&self, table_key: &str) -> (d: SchemaDifference) {
        let key = self.key();
        let details = simple_details_string(SchemaObjectType::View, key.as_str(), " needs to be added");
        make_difference(
            SchemaObjectType::View,
            key,
            ChangeType::Addition,
            Some(SchemaObject::View(self.clone())),
            None,
            details,
            false,
        )
    }

    fn removed(&self, table_key: &str) -> (d: SchemaDifference) {
        let key = self.key();
        let details = simple_details_string(SchemaObjectType::View, key.as_str(), " needs to be dropped");
        make_difference(
            SchemaObjectType::View,
            key,
            ChangeType::Deletion,
            None,
            Some(SchemaObject::View(self.clone())),
            details,
            true,
        )
    }
}

impl ComparableItem for View {
    proof fn lemma_modifications_classified(&self, target: &Self, table_key: Seq<char>) {
    }

    proof fn lemma_unchanged(&self, table_key: Seq<char>) {
    }

    open spec fn modification(&self, target: &Self, table_key: Seq<char>) -> Seq<DifferenceModel> {
        if views_equal_spec(self@, target@) {
            Seq::empty()
        } else {
            seq![
                diff_model(
                    SchemaObjectType::View,
                    self.item_key(),
                    ChangeType::Modification,
                    Some(ObjectModel::View(self@)),
                    Some(ObjectModel::View(target@)),
                    simple_details(SchemaObjectType::View, self.item_key(), " has been modified"@),
                    true,
                ),
            ]
        }
    }

    fn changed(&self, target: &Self, table_key: &str) -> (r: Vec<SchemaDifference>) {
        let mut r: Vec<SchemaDifference> = Vec::new();
        if !views_equal(self, target) {
            let key = self.key();
            let details = simple_details_string(SchemaObjectType::View, key.as_str(), " has been modified");
            let d = make_difference(
                SchemaObjectType::View,
                key,
                ChangeType::Modification,
                Some(SchemaObject::View(self.clone())),
                Some(SchemaObject::View(target.clone())),
                details,
                true,
            );
            push_difference(&mut r, d);
        }
        assert(contents(r@) =~= self.modification(target, table_key@));
        r
    }
}

pub open spec fn procedures_equal_spec(a: ProcedureModel, b: ProcedureModel) -> bool {
    a.definition == b.definition
}

fn procedures_equal(a: &StoredProcedure, b: &StoredProcedure) -> (r: bool)
    ensures
        r == procedures_equal_spec(a@, b@),
{
    a.definition == b.definition
}

impl DiffItem for StoredProcedure {
    proof fn lemma_classified(&self, table_key: Seq<char>) {
    }

    open spec fn item_key(&self) -> Seq<char> {
        dotted(self.schema@, self.name@)
    }

    open spec fn addition(&self, table_key: Seq<char>) -> DifferenceModel {
        diff_model(
            SchemaObjectType::Procedure,
            self.item_key(),
            ChangeType::Addition,
            Some(ObjectModel::Procedure(self@)),
            None,
            simple_details(SchemaObjectType::Procedure, self.item_key(), " needs to be added"@),
            false,
        )
    }

    open spec fn deletion(&self, table_key: Seq<char>) -> DifferenceModel {
        diff_model(
            SchemaObjectType::Procedure,
            self.item_key(),
            ChangeType::Deletion,
            None,
            Some(ObjectModel::Procedure(self@)),
            simple_details(SchemaObjectType::Procedure, self.item_key(), " needs to be dropped"@),
            true,
        )
    }

    fn key(&self) -> (k: String) {
        dotted_string(self.schema.as_str(), self.name.as_str())
    }

    fn added(&self, table_key: &str) -> (d: SchemaDifference) {
        let key = self.key();
        let details = simple_details_string(SchemaObjectType::Procedure, key.as_str(), " needs to be added");
        make_difference(
            SchemaObjectType::Procedure,
            key,
            ChangeType::Addition,
            Some(SchemaObject::Procedure(self.clone())),
            None,
            details,
            false,
        )
    }

    fn removed(&self, table_key: &str) -> (d: SchemaDifference) {
        let key = self.key();
        let details = simple_details_string(SchemaObjectType::Procedure, key.as_str(), " needs to be dropped");
        make_difference(
            SchemaObjectType::Procedure,
            key,
            ChangeType::Deletion,
            None,
            Some(SchemaObject::Procedure(self.clone())),
            details,
            true,
        )
    }
}

impl ComparableItem for StoredProcedure {
    proof fn lemma_modifications_classified(&self, target: &Self, table_key: Seq<char>) {
    }

    proof fn lemma_unchanged(&self, table_key: Seq<char>) {
    }

    open spec fn modification(&self, target: &Self, table_key: Seq<char>) -> Seq<DifferenceModel> {
        if procedures_equal_spec(self@, target@) {
            Seq::empty()
        } else {
            seq![
                diff_model(
                    SchemaObjectType::Procedure,
                    self.item_key(),
                    ChangeType::Modification,
                    Some(ObjectModel::Procedure(self@)),
                    Some(ObjectModel::Procedure(target@)),
                    simple_details(SchemaObjectType::Procedure, self.item_key(), " has been modified"@),
                    true,
                ),
            ]
        }
    }

    fn changed(&self, target: &Self, table_key: &str) -> (r: Vec<SchemaDifference>) {
        let mut r: Vec<SchemaDifference> = Vec::new();
        if !procedures_equal(self, target) {
            let key = self.key();
            let details = simple_details_string(SchemaObjectType::Procedure, key.as_str(), " has been modified");
            let d = make_difference(
                SchemaObjectType::Procedure,
                key,
                ChangeType::Modification,
                Some(SchemaObject::Procedure(self.clone())),
                Some(SchemaObject::Procedure(target.clone())),
                details,
                true,
            );
            push_difference(&mut r, d);
        }
        assert(contents(r@) =~= self.modification(target, table_key@));
        r
    }
}

pub open spec fn functions_equal_spec(a: FunctionModel, b: FunctionModel) -> bool {
    a.definition == b.definition && a.return_type == b.return_type
}

fn functions_equal(a: &Function, b: &Function) -> (r: bool)
    ensures
        r == functions_equal_spec(a@, b@),
{
    a.definition == b.definition && a.return_type == b.return_type
}

impl DiffItem for Function {
    proof fn lemma_classified(&self, table_key: Seq<char>) {
    }

    open spec fn item_key(&self) -> Seq<char> {
        dotted(self.schema@, self.name@)
    }

    open spec fn addition(&self, table_key: Seq<char>) -> DifferenceModel {
        diff_model(
            SchemaObjectType::Function,
            self.item_key(),
            ChangeType::Addition,
            Some(ObjectModel::Function(self@)),
            None,
            simple_details(SchemaObjectType::Function, self.item_key(), " needs to be added"@),
            false,
        )
    }

    open spec fn deletion(&self, table_key: Seq<char>) -> DifferenceModel {
        diff_model(
            SchemaObjectType::Function,
            self.item_key(),
            ChangeType::Deletion,
            None,
            Some(ObjectModel::Function(self@)),
            simple_details(SchemaObjectType::Function, self.item_key(), " needs to be dropped"@),
            true,
        )
    }

    fn key(&self) -> (k: String) {
        dotted_string(self.schema.as_str(), self.name.as_str())
    }

    fn added(&self, table_key: &str) -> (d: SchemaDifference) {
        let key = self.key();
        let details = simple_details_string(SchemaObjectType::Function, key.as_str(), " needs to be added");
        make_difference(
            SchemaObjectType::Function,
            key,
            ChangeType::Addition,
            Some(SchemaObject::Function(self.clone())),
            None,
            details,
            false,
        )
    }

    fn removed(&self, table_key: &str) -> (d: SchemaDifference) {
        let key = self.key();
        let details = simple_details_string(SchemaObjectType::Function, key.as_str(), " needs to be dropped");
        make_difference(
            SchemaObjectType::Function,
            key,
            ChangeType::Deletion,
            None,
            Some(SchemaObject::Function(self.clone())),
            details,
            true,
        )
    }
}

impl ComparableItem for Function {
    proof fn lemma_modifications_classified(&self, target: &Self, table_key: Seq<char>) {
    }

    proof fn lemma_unchanged(&self, table_key: Seq<char>) {
    }

    open spec fn modification(&self, target: &Self, table_key: Seq<char>) -> Seq<DifferenceModel> {
        if functions_equal_spec(self@, target@) {
            Seq::empty()
        } else {
            seq![
                diff_model(
                    SchemaObjectType::Function,
                    self.item_key(),
                    ChangeType::Modification,
                    Some(ObjectModel::Function(self@)),
                    Some(ObjectModel::Function(target@)),
                    simple_details(SchemaObjectType::Function, self.item_key(), " has been modified"@),
                    true,
                ),
            ]
        }
    }

    fn changed(&self, target: &Self, table_key: &str) -> (r: Vec<SchemaDifference>) {
        let mut r: Vec<SchemaDifference> = Vec::new();
        if !functions_equal(self, target) {
            let key = self.key();
            let details = simple_details_string(SchemaObjectType::Function, key.as_str(), " has been modified");
            let d = make_difference(
                SchemaObjectType::Function,
                key,
                ChangeType::Modification,
                Some(SchemaObject::Function(self.clone())),
                Some(SchemaObject::Function(target.clone())),
                details,
                true,
            );
            push_difference(&mut r, d);
        }
        assert(contents(r@) =~= self.modification(target, table_key@));
        r
    }
}

pub open spec fn triggers_equal_spec(a: TriggerModel, b: TriggerModel) -> bool {
    a.definition == b.definition && a.timing == b.timing && a.event == b.event
}

fn triggers_equal(a: &Trigger, b: &Trigger) -> (r: bool)
    ensures
        r == triggers_equal_spec(a@, b@),
{
    a.definition == b.definition && a.timing == b.timing && a.event == b.event
}

impl DiffItem for Trigger {
    proof fn lemma_classified(&self, table_key: Seq<char>) {
    }

    open spec fn item_key(&self) -> Seq<char> {
        dotted(self.table@, self.name@)
    }

    open spec fn addition(&self, table_key: Seq<char>) -> DifferenceModel {
        diff_model(
            SchemaObjectType::Trigger,
            self.item_key(),
            ChangeType::Addition,
            Some(ObjectModel::Trigger(self@)),
            None,
            simple_details(SchemaObjectType::Trigger, self.item_key(), " needs to be added"@),
            false,
        )
    }

    open spec fn deletion(&self, table_key: Seq<char>) -> DifferenceModel {
        diff_model(
            SchemaObjectType::Trigger,
            self.item_key(),
            ChangeType::Deletion,
            None,
            Some(ObjectModel::Trigger(self@)),
            simple_details(SchemaObjectType::Trigger, self.item_key(), " needs to be dropped"@),
            true,
        )
    }

    fn key(&self) -> (k: String) {
        dotted_string(self.table.as_str(), self.name.as_str())
    }

    fn added(&self, table_key: &str) -> (d: SchemaDifference) {
        let key = self.key();
        let details = simple_details_string(SchemaObjectType::Trigger, key.as_str(), " needs to be added");
        make_difference(
            SchemaObjectType::Trigger,
            key,
            ChangeType::Addition,
            Some(SchemaObject::Trigger(self.clone())),
            None,
            details,
            false,
        )
    }

    fn removed(&self, table_key: &str) -> (d: SchemaDifference) {
        let key = self.key();
        let details = simple_details_string(SchemaObjectType::Trigger, key.as_str(), " needs to be dropped");
        make_difference(
            SchemaObjectType::Trigger,
            key,
            ChangeType::Deletion,
            None,
            Some(SchemaObject::Trigger(self.clone())),
            details,
            true,
        )
    }
}

impl ComparableItem for Trigger {
    proof fn lemma_modifications_classified(&self, target: &Self, table_key: Seq<char>) {
    }

    proof fn lemma_unchanged(&self, table_key: Seq<char>) {
    }

    open spec fn modification(&self, target: &Self, table_key: Seq<char>) -> Seq<DifferenceModel> {
        if triggers_equal_spec(self@, target@) {
            Seq::empty()
        } else {
            seq![
                diff_model(
                    SchemaObjectType::Trigger,
                    self.item_key(),
                    ChangeType::Modification,
                    Some(ObjectModel::Trigger(self@)),
                    Some(ObjectModel::Trigger(target@)),
                    simple_details(SchemaObjectType::Trigger, self.item_key(), " has been modified"@),
                    true,
                ),
            ]
        }
    }

    fn changed(&self, target: &Self, table_key: &str) -> (r: Vec<SchemaDifference>) {
        let mut r: Vec<SchemaDifference> = Vec::new();
        if !triggers_equal(self, target) {
            let key = self.key();
            let details = simple_details_string(SchemaObjectType::Trigger, key.as_str(), " has been modified");
            let d = make_difference(
                SchemaObjectType::Trigger,
                key,
                ChangeType::Modification,
                Some(SchemaObject::Trigger(self.clone())),
                Some(SchemaObject::Trigger(target.clone())),
                details,
                true,
            );
            push_difference(&mut r, d);
        }
        assert(contents(r@) =~= self.modification(target, table_key@));
        r
    }
}

pub open spec fn sequences_equal_spec(a: SequenceModel, b: SequenceModel) -> bool {
    a.start_value == b.start_value && a.increment == b.increment && a.min_value == b.min_value
        && a.max_value == b.max_value && a.cycle == b.cycle
}

fn sequences_equal(a: &Sequence, b: &Sequence) -> (r: bool)
    ensures
        r == sequences_equal_spec(a@, b@),
{
    a.start_value == b.start_value && a.increment == b.increment && a.min_value == b.min_value
        && a.max_value == b.max_value && a.cycle == b.cycle
}

impl DiffItem for Sequence {
    proof fn lemma_classified(&self, table_key: Seq<char>) {
    }

    open spec fn item_key(&self) -> Seq<char> {
        dotted(self.schema@, self.name@)
    }

    open spec fn addition(&self, table_key: Seq<char>) -> DifferenceModel {
        diff_model(
            SchemaObjectType::Sequence,
            self.item_key(),
            ChangeType::Addition,
            Some(ObjectModel::Sequence(self@)),
            None,
            simple_details(SchemaObjectType::Sequence, self.item_key(), " needs to be added"@),
            false,
        )
    }

    open spec fn deletion(&self, table_key: Seq<char>) -> DifferenceModel {
        diff_model(
            SchemaObjectType::Sequence,
            self.item_key(),
            ChangeType::Deletion,
            None,
            Some(ObjectModel::Sequence(self@)),
            simple_details(SchemaObjectType::Sequence, self.item_key(), " needs to be dropped"@),
            true,
        )
    }

    fn key(&self) -> (k: String) {
        dotted_string(self.schema.as_str(), self.name.as_str())
    }

    fn added(&self, table_key: &str) -> (d: SchemaDifference) {
        let key = self.key();
        let details = simple_details_string(SchemaObjectType::Sequence, key.as_str(), " needs to be added");
        make_difference(
            SchemaObjectType::Sequence,
            key,
            ChangeType::Addition,
            Some(SchemaObject::Sequence(self.clone())),
            None,
            details,
            false,
        )
    }

    fn removed(&self, table_key: &str) -> (d: SchemaDifference) {
        let key = self.key();
        let details = simple_details_string(SchemaObjectType::Sequence, key.as_str(), " needs to be dropped");
        make_difference(
            SchemaObjectType::Sequence,
            key,
            ChangeType::Deletion,
            None,
            Some(SchemaObject::Sequence(self.clone())),
            details,
            true,
        )
    }
}

impl ComparableItem for Sequence {
    proof fn lemma_modifications_classified(&self, target: &Self, table_key: Seq<char>) {
    }

    proof fn lemma_unchanged(&self, table_key: Seq<char>) {
    }

    open spec fn modification(&self, target: &Self, table_key: Seq<char>) -> Seq<DifferenceModel> {
        if sequences_equal_spec(self@, target@) {
            Seq::empty()
        } else {
            seq![
                diff_model(
                    SchemaObjectType::Sequence,
                    self.item_key(),
                    ChangeType::Modification,
                    Some(ObjectModel::Sequence(self@)),
                    Some(ObjectModel::Sequence(target@)),
                    simple_details(SchemaObjectType::Sequence, self.item_key(), " has been modified"@),
                    true,
                ),
            ]
        }
    }

    fn changed(&self, target: &Self, table_key: &str) -> (r: Vec<SchemaDifference>) {
        let mut r: Vec<SchemaDifference> = Vec::new();
        if !sequences_equal(self, target) {
            let key = self.key();
            let details = simple_details_string(SchemaObjectType::Sequence, key.as_str(), " has been modified");
            let d = make_difference(
                SchemaObjectType::Sequence,
                key,
                ChangeType::Modification,
                Some(SchemaObject::Sequence(self.clone())),
                Some(SchemaObject::Sequence(target.clone())),
                details,
                true,
            );
            push_difference(&mut r, d);
        }
        assert(contents(r@) =~= self.modification(target, table_key@));
        r
    }
}


// ---------------------------------------------------------------------------
// Primary keys
// ---------------------------------------------------------------------------

/// A list of strings as `Debug` prints it: `["a", "b"]`.
pub open spec fn debug_list_text(items: Seq<Seq<char>>) -> Seq<char> {
    "["@ + join(items.map_values(|c: Seq<char>| debug_text(c)), ", "@) + "]"@
}

fn debug_list_string(items: &Vec<String>) -> (r: String)
    ensures
        r@ == debug_list_text(items.deep_view()),
{
    let mut quoted: Vec<String> = Vec::new();
    for i in 0..items.len()
        invariant
            quoted.len() == i,
            forall|j: int| 0 <= j < i ==> #[trigger] quoted@[j]@ == debug_text(items@[j]@),
    {
        quoted.push(debug_string(items[i].as_str()));
    }
    assert(quoted.deep_view() =~= items.deep_view().map_values(|c: Seq<char>| debug_text(c)));
    let joined = join_strings(&quoted, ", ");
    framed("[", joined.as_str(), "]")
}

/// The differences between the primary keys of two versions of a table.
pub open spec fn primary_key_differences(
    table_key: Seq<char>,
    source: Option<PrimaryKeyModel>,
    target: Option<PrimaryKeyModel>,
) -> Seq<DifferenceModel> {
    match (source, target) {
        (Some(s), None) => seq![
            diff_model(
                SchemaObjectType::PrimaryKey,
                dotted(table_key, s.name),
                ChangeType::Addition,
                Some(ObjectModel::PrimaryKey(s)),
                None,
                "Primary key "@ + s.name + " needs to be added"@,
                false,
            ),
        ],
        (None, Some(t)) => seq![
            diff_model(
                SchemaObjectType::PrimaryKey,
                dotted(table_key, t.name),
                ChangeType::Deletion,
                None,
                Some(ObjectModel::PrimaryKey(t)),
                "Primary key "@ + t.name + " needs to be dropped"@,
                true,
            ),
        ],
        (Some(s), Some(t)) => if s.columns != t.columns {
            seq![
                diff_model(
                    SchemaObjectType::PrimaryKey,
                    dotted(table_key, s.name),
                    ChangeType::Modification,
                    Some(ObjectModel::PrimaryKey(s)),
                    Some(ObjectModel::PrimaryKey(t)),
                    "Primary key columns changed: "@ + debug_list_text(t.columns) + " -> "@
                        + debug_list_text(s.columns),
                    true,
                ),
            ]
        } else {
            Seq::empty()
        },
        (None, None) => Seq::empty(),
    }
}

fn compare_primary_keys(
    table_key: &str,
    source: &Option<PrimaryKey>,
    target: &Option<PrimaryKey>,
) -> (r: Vec<SchemaDifference>)
    ensures
        contents(r@) == primary_key_differences(
            table_key@,
            primary_key_model(*source),
            primary_key_model(*target),
        ),
{
    let mut r: Vec<SchemaDifference> = Vec::new();
    match (source, target) {
        (Some(src_pk), None) => {
            let d = make_difference(
                SchemaObjectType::PrimaryKey,
                dotted_string(table_key, src_pk.name.as_str()),
                ChangeType::Addition,
                Some(SchemaObject::PrimaryKey(src_pk.clone())),
                None,
                framed("Primary key ", src_pk.name.as_str(), " needs to be added"),
                false,
            );
            push_difference(&mut r, d);
        },
        (None, Some(tgt_pk)) => {
            let d = make_difference(
                SchemaObjectType::PrimaryKey,
                dotted_string(table_key, tgt_pk.name.as_str()),
                ChangeType::Deletion,
                None,
                Some(SchemaObject::PrimaryKey(tgt_pk.clone())),
                framed("Primary key ", tgt_pk.name.as_str(), " needs to be dropped"),
                true,
            );
            push_difference(&mut r, d);
        },
        (Some(src_pk), Some(tgt_pk)) => {
            if !strings_eq(&src_pk.columns, &tgt_pk.columns) {
                let before = debug_list_string(&tgt_pk.columns);
                let after = debug_list_string(&src_pk.columns);
                let mut details = String::from_str("Primary key columns changed: ");
                details.append(before.as_str());
                details.append(" -> ");
                details.append(after.as_str());
                let d = make_difference(
                    SchemaObjectType::PrimaryKey,
                    dotted_string(table_key, src_pk.name.as_str()),
                    ChangeType::Modification,
                    Some(SchemaObject::PrimaryKey(src_pk.clone())),
                    Some(SchemaObject::PrimaryKey(tgt_pk.clone())),
                    details,
                    true,
                );
                push_difference(&mut r, d);
            }
        },
        (None, None) => {},
    }
    assert(contents(r@) =~= primary_key_differences(
        table_key@,
        primary_key_model(*source),
        primary_key_model(*target),
    ));
    r
}

// ---------------------------------------------------------------------------
// Tables
// ---------------------------------------------------------------------------

impl DiffItem for Table {
    proof fn lemma_classified(&self, table_key: Seq<char>) {
    }

    open spec fn item_key(&self) -> Seq<char> {
        dotted(self.schema@, self.name@)
    }

    open spec fn addition(&self, table_key: Seq<char>) -> DifferenceModel {
        diff_model(
            SchemaObjectType::Table,
            self.item_key(),
            ChangeType::Addition,
            Some(ObjectModel::Table(self@)),
            None,
            "Table "@ + self.item_key() + " needs to be added"@,
            false,
        )
    }

    open spec fn deletion(&self, table_key: Seq<char>) -> DifferenceModel {
        diff_model(
            SchemaObjectType::Table,
            self.item_key(),
            ChangeType::Deletion,
            None,
            Some(ObjectModel::Table(self@)),
            "Table "@ + self.item_key() + " needs to be dropped"@,
            true,
        )
    }

    fn key(&self) -> (k: String) {
        dotted_string(self.schema.as_str(), self.name.as_str())
    }

    fn added(&self, table_key: &str) -> (d: SchemaDifference) {
        let key = self.key();
        let details = framed("Table ", key.as_str(), " needs to be added");
        make_difference(
            SchemaObjectType::Table,
            key,
            ChangeType::Addition,
            Some(SchemaObject::Table(self.clone())),
            None,
            details,
            false,
        )
    }

    fn removed(&self, table_key: &str) -> (d: SchemaDifference) {
        let key = self.key();
        let details = framed("Table ", key.as_str(), " needs to be dropped");
        make_difference(
            SchemaObjectType::Table,
            key,
            ChangeType::Deletion,
            None,
            Some(SchemaObject::Table(self.clone())),
            details,
            true,
        )
    }
}

/// The differences inside a table that both schemas hold: columns, primary key, foreign keys,
/// unique constraints, check constraints and indexes, in that order.
pub open spec fn table_details(source: Table, target: Table) -> Seq<DifferenceModel> {
    let k = source.item_key();
    item_differences(source.columns@, target.columns@, k) + primary_key_differences(
        k,
        primary_key_model(source.primary_key),
        primary_key_model(target.primary_key),
    ) + item_differences(source.foreign_keys@, target.foreign_keys@, k) + item_differences(
        source.unique_constraints@,
        target.unique_constraints@,
        k,
    ) + item_differences(source.check_constraints@, target.check_constraints@, k)
        + item_differences(source.indexes@, target.indexes@, k)
}

/// Table details for the first `n` source tables that the target holds too.
pub open spec fn table_modifications_upto(src: Seq<Table>, tgt: Seq<Table>, n: nat) -> Seq<
    DifferenceModel,
>
    decreases n,
{
    if n == 0 {
        Seq::empty()
    } else {
        let i = n - 1;
        let rest = table_modifications_upto(src, tgt, (n - 1) as nat);
        let j = last_key(keys_of(tgt), keys_of(src)[i]);
        if kept(keys_of(src), i) && j >= 0 {
            rest + table_details(src[i], tgt[j])
        } else {
            rest
        }
    }
}

/// All table differences: added tables, dropped tables, then the details of common tables.
pub open spec fn table_differences(src: Seq<Table>, tgt: Seq<Table>) -> Seq<DifferenceModel> {
    additions_upto(src, tgt, Seq::empty(), src.len()) + deletions_upto(
        src,
        tgt,
        Seq::empty(),
        tgt.len(),
    ) + table_modifications_upto(src, tgt, src.len())
}

/// What comparing two schemas finds, before it is put in dependency order.
pub open spec fn schema_differences(source: DatabaseSchema, target: DatabaseSchema) -> Seq<
    DifferenceModel,
> {
    table_differences(source.tables@, target.tables@) + item_differences(
        source.views@,
        target.views@,
        Seq::empty(),
    ) + item_differences(source.procedures@, target.procedures@, Seq::empty())
        + item_differences(source.functions@, target.functions@, Seq::empty())
        + item_differences(source.triggers@, target.triggers@, Seq::empty())
        + item_differences(source.sequences@, target.sequences@, Seq::empty())
}

fn compare_table_details(source: &Table, target: &Table) -> (r: Vec<SchemaDifference>)
    ensures
        contents(r@) == table_details(*source, *target),
{
    let table_key = source.key();
    let key = table_key.as_str();
    let mut r = compare_items(key, &source.columns, &target.columns);
    append_differences(
        &mut r,
        compare_primary_keys(key, &source.primary_key, &target.primary_key),
    );
    append_differences(&mut r, compare_items(key, &source.foreign_keys, &target.foreign_keys));
    append_differences(
        &mut r,
        compare_items(key, &source.unique_constraints, &target.unique_constraints),
    );
    append_differences(
        &mut r,
        compare_items(key, &source.check_constraints, &target.check_constraints),
    );
    append_differences(&mut r, compare_items(key, &source.indexes, &target.indexes));
    r
}

proof fn lemma_table_modifications_step(src: Seq<Table>, tgt: Seq<Table>, i: int)
    requires
        0 <= i < src.len(),
    ensures
        table_modifications_upto(src, tgt, (i + 1) as nat) == {
            let rest = table_modifications_upto(src, tgt, i as nat);
            let j = last_key(keys_of(tgt), keys_of(src)[i]);
            if kept(keys_of(src), i) && j >= 0 {
                rest + table_details(src[i], tgt[j])
            } else {
                rest
            }
        },
{
}

fn compare_tables(source: &Vec<Table>, target: &Vec<Table>) -> (r: Vec<SchemaDifference>)
    ensures
        contents(r@) == table_differences(source@, target@),
{
    let no_table = String::new();
    let mut out = additions_and_deletions(no_table.as_str(), source, target);
    let src_keys = item_keys(source);
    let tgt_keys = item_keys(target);
    let mut mods: Vec<SchemaDifference> = Vec::new();
    for i in 0..source.len()
        invariant
            src_keys.deep_view() == keys_of(source@),
            tgt_keys.deep_view() == keys_of(target@),
            contents(mods@) == table_modifications_upto(source@, target@, i as nat),
    {
        let ghost key = keys_of(source@)[i as int];
        proof {
            assert(src_keys.deep_view()[i as int] == src_keys@[i as int]@);
            lemma_last_key_bounds(keys_of(source@), key);
            lemma_last_key_bounds(keys_of(target@), key);
            lemma_table_modifications_step(source@, target@, i as int);
        }
        let kept_here = find_last_key(&src_keys, &src_keys[i]);
        let found = find_last_key(&tgt_keys, &src_keys[i]);
        if kept_here == Some(i) {
            match found {
                Some(j) => {
                    let details = compare_table_details(&source[i], &target[j]);
                    append_differences(&mut mods, details);
                },
                None => {},
            }
        }
    }
    append_differences(&mut out, mods);
    out
}

/// The differences of the first phase: tables, views, procedures, functions, triggers and
/// sequences, in that order.
fn collect_differences(source: &DatabaseSchema, target: &DatabaseSchema) -> (r: Vec<
    SchemaDifference,
>)
    ensures
        contents(r@) == schema_differences(*source, *target),
{
    let none = String::new();
    let no_table = none.as_str();
    let mut r = compare_tables(&source.tables, &target.tables);
    append_differences(&mut r, compare_items(no_table, &source.views, &target.views));
    append_differences(&mut r, compare_items(no_table, &source.procedures, &target.procedures));
    append_differences(&mut r, compare_items(no_table, &source.functions, &target.functions));
    append_differences(&mut r, compare_items(no_table, &source.triggers, &target.triggers));
    append_differences(&mut r, compare_items(no_table, &source.sequences, &target.sequences));
    r
}


// ---------------------------------------------------------------------------
// The engine
// ---------------------------------------------------------------------------

/// Compares two analysed schemas.
pub struct DiffEngine;

/// How many differences have the change type `c`.
pub open spec fn count_change(s: Seq<DifferenceModel>, c: ChangeType) -> nat
    decreases s.len(),
{
    if s.len() == 0 {
        0
    } else {
        count_change(s.drop_last(), c) + if s.last().change_type == c {
            1nat
        } else {
            0nat
        }
    }
}

/// How many differences are marked destructive.
pub open spec fn count_destructive(s: Seq<DifferenceModel>) -> nat
    decreases s.len(),
{
    if s.len() == 0 {
        0
    } else {
        count_destructive(s.drop_last()) + if s.last().destructive {
            1nat
        } else {
            0nat
        }
    }
}

/// A difference as marking leaves it: every drop counts as destructive.
pub open spec fn marked(d: DifferenceModel) -> DifferenceModel {
    DifferenceModel { destructive: d.destructive || d.change_type == ChangeType::Deletion, ..d }
}

/// Each difference as marking leaves it.
pub open spec fn marked_all(s: Seq<DifferenceModel>) -> Seq<DifferenceModel> {
    s.map_values(|d: DifferenceModel| marked(d))
}

proof fn lemma_reordering_marked(out: Seq<DifferenceModel>, inp: Seq<DifferenceModel>)
    requires
        is_reordering(out, inp),
    ensures
        is_reordering(marked_all(out), marked_all(inp)),
{
    let p = choose|p: Seq<int>|
        #![trigger is_index_permutation(p, inp.len() as int)]
        is_index_permutation(p, inp.len() as int) && forall|k: int|
            0 <= k < out.len() ==> #[trigger] out[k] == inp[p[k]];
    assert(is_index_permutation(p, marked_all(inp).len() as int));
    assert forall|k: int| 0 <= k < marked_all(out).len() implies #[trigger] marked_all(out)[k]
        == marked_all(inp)[p[k]] by {
        assert(out[k] == inp[p[k]]);
    }
}

impl DiffEngine {
    pub fn new() -> (r: Self) {
        DiffEngine
    }

    /// Finds what must change on `target` to make it match `source`: the objects of the source
    /// that the target lacks (additions), those of the target that the source lacks
    /// (deletions), and those both hold in different versions (modifications), in an order
    /// where foreign keys follow the tables they reference.
    pub fn compare_schemas(&self, source: &DatabaseSchema, target: &DatabaseSchema) -> (r: Result<
        Vec<SchemaDifference>,
        SyncroDbError,
    >)
        ensures
            match r {
                Ok(diffs) => is_reordering(contents(diffs@), schema_differences(*source, *target))
                    && respects_dependencies(contents(diffs@)) && forall|i: int|
                    0 <= i < diffs@.len() ==> random_uuid_text((#[trigger] diffs@[i])@.id),
                Err(e) => e@ == identifier_error(),
            },
            schema_differences(*source, *target).len() == 0 ==> (r matches Ok(d) && d@.len() == 0),
    {
        let mut sorted = self.find_differences(source, target);
        match assign_identifiers(&mut sorted) {
            Ok(()) => Ok(sorted),
            Err(e) => Err(e),
        }
    }

    /// The differences of `compare_schemas` before they are given identifiers: the same
    /// contents, in an order where foreign keys follow the tables they reference. It never
    /// fails.
    pub fn find_differences(&self, source: &DatabaseSchema, target: &DatabaseSchema) -> (r: Vec<
        SchemaDifference,
    >)
        ensures
            is_reordering(contents(r@), schema_differences(*source, *target)),
            respects_dependencies(contents(r@)),
    {
        let differences = collect_differences(source, target);
        let ghost phase_one = differences@;
        let sorted = self.sort_by_dependencies(differences);
        proof {
            lemma_reordering_contents(sorted@, phase_one);
            lemma_respects_contents(sorted@);
        }
        sorted
    }

    /// Orders differences so that each foreign key comes after the tables it references.
    fn sort_by_dependencies(&self, differences: Vec<SchemaDifference>) -> (r: Vec<SchemaDifference>)
        ensures
            is_reordering(models(r@), models(differences@)),
            respects_dependencies(models(r@)),
    {
        order_by_dependencies(differences)
    }

    /// Marks every drop as destructive; nothing else changes.
    pub fn mark_destructive_operations(differences: &mut Vec<SchemaDifference>)
        ensures
            final(differences)@.len() == old(differences)@.len(),
            forall|i: int|
                0 <= i < old(differences)@.len() ==> #[trigger] final(differences)@[i]@ == marked(
                    old(differences)@[i]@,
                ),
    {
        let n = differences.len();
        for i in 0..n
            invariant
                n == differences.len(),
                n == old(differences)@.len(),
                forall|j: int| 0 <= j < i ==> #[trigger] differences@[j]@ == marked(old(differences)@[j]@),
                forall|j: int| i <= j < n ==> #[trigger] differences@[j] == old(differences)@[j],
        {
            let mut d = differences.remove(i);
            if d.change_type == ChangeType::Deletion {
                d.destructive = true;
            }
            differences.insert(i, d);
        }
    }

    /// The comparison of two analysed databases: the differences that turn the target into
    /// the source, in dependency order, every drop marked destructive, and their counts.
    pub fn compare_and_summarize(
        &self,
        source_id: String,
        target_id: String,
        source: &DatabaseSchema,
        target: &DatabaseSchema,
        compared_at: String,
    ) -> (r: Result<SchemaComparison, SyncroDbError>)
        ensures
            r matches Err(e) ==> e@ == identifier_error(),
            schema_differences(*source, *target).len() == 0 ==> (r matches Ok(c)
                && c.differences@.len() == 0 && c.summary.total_differences == 0
                && c.summary.additions == 0 && c.summary.modifications == 0
                && c.summary.deletions == 0 && c.summary.destructive_changes == 0),
            r matches Ok(c) ==> c.source_id == source_id && c.target_id == target_id
                && c.compared_at == compared_at && (forall|i: int|
                0 <= i < c.differences@.len() ==> random_uuid_text(
                    (#[trigger] c.differences@[i])@.id,
                ))
                && is_reordering(
                contents(c.differences@),
                marked_all(schema_differences(*source, *target)),
            ) && respects_dependencies(contents(c.differences@))
                && c.summary.total_differences == c.differences@.len()
                && c.summary.additions == count_change(
                models(c.differences@),
                ChangeType::Addition,
            ) && c.summary.modifications == count_change(
                models(c.differences@),
                ChangeType::Modification,
            ) && c.summary.deletions == count_change(models(c.differences@), ChangeType::Deletion)
                && c.summary.destructive_changes == count_destructive(models(c.differences@))
                && c.summary.additions == models(c.differences@).filter(
                |d: DifferenceModel| d.change_type == ChangeType::Addition,
            ).len() && c.summary.modifications == models(c.differences@).filter(
                |d: DifferenceModel| d.change_type == ChangeType::Modification,
            ).len() && c.summary.deletions == models(c.differences@).filter(
                |d: DifferenceModel| d.change_type == ChangeType::Deletion,
            ).len() && c.summary.destructive_changes == models(c.differences@).filter(
                |d: DifferenceModel| d.destructive,
            ).len(),
    {
        let mut differences = match self.compare_schemas(source, target) {
            Ok(d) => d,
            Err(e) => return Err(e),
        };
        let ghost before = differences@;
        Self::mark_destructive_operations(&mut differences);
        proof {
            assert(contents(differences@) =~= marked_all(contents(before)));
            lemma_reordering_marked(contents(before), schema_differences(*source, *target));
            assert forall|a: int, b: int|
                0 <= a < contents(differences@).len() && 0 <= b < contents(differences@).len()
                    && #[trigger] depends_on(contents(differences@)[b], contents(differences@)[a])
                implies a < b by {
                assert(depends_on(contents(before)[b], contents(before)[a]));
            }
        }
        let summary = Self::generate_summary(differences.as_slice());
        Ok(SchemaComparison { source_id, target_id, differences, summary, compared_at })
    }

    /// Counts the differences by kind of change, and the destructive ones.
    pub fn generate_summary(differences: &[SchemaDifference]) -> (r: DiffSummary)
        ensures
            r.total_differences == differences@.len(),
            r.additions == count_change(models(differences@), ChangeType::Addition),
            r.modifications == count_change(models(differences@), ChangeType::Modification),
            r.deletions == count_change(models(differences@), ChangeType::Deletion),
            r.destructive_changes == count_destructive(models(differences@)),
            r.additions == models(differences@).filter(
                |d: DifferenceModel| d.change_type == ChangeType::Addition,
            ).len(),
            r.modifications == models(differences@).filter(
                |d: DifferenceModel| d.change_type == ChangeType::Modification,
            ).len(),
            r.deletions == models(differences@).filter(
                |d: DifferenceModel| d.change_type == ChangeType::Deletion,
            ).len(),
            r.destructive_changes == models(differences@).filter(|d: DifferenceModel| d.destructive).len(),
    {
        proof {
            law_summary_counts_are_filter_counts(models(differences@));
        }
        let mut additions: usize = 0;
        let mut modifications: usize = 0;
        let mut deletions: usize = 0;
        let mut destructive_changes: usize = 0;
        let n = differences.len();
        for i in 0..n
            invariant
                n == differences@.len(),
                additions == count_change(models(differences@).take(i as int), ChangeType::Addition),
                modifications == count_change(
                    models(differences@).take(i as int),
                    ChangeType::Modification,
                ),
                deletions == count_change(models(differences@).take(i as int), ChangeType::Deletion),
                destructive_changes == count_destructive(models(differences@).take(i as int)),
                additions + modifications + deletions == i,
                destructive_changes <= i,
        {
            let ghost m = models(differences@);
            proof {
                assert(m.take(i + 1).drop_last() == m.take(i as int));
                assert(m.take(i + 1).last() == differences@[i as int]@);
            }
            match differences[i].change_type {
                ChangeType::Addition => additions = additions + 1,
                ChangeType::Modification => modifications = modifications + 1,
                ChangeType::Deletion => deletions = deletions + 1,
            }
            if differences[i].destructive {
                destructive_changes = destructive_changes + 1;
            }
        }
        proof {
            assert(models(differences@).take(n as int) == models(differences@));
        }
        DiffSummary { total_differences: n, additions, modifications, deletions, destructive_changes }
    }
}

proof fn lemma_reordering_contents(out: Seq<SchemaDifference>, inp: Seq<SchemaDifference>)
    requires
        is_reordering(models(out), models(inp)),
    ensures
        is_reordering(contents(out), contents(inp)),
{
    let p = choose|p: Seq<int>|
        is_index_permutation(p, models(inp).len() as int) && forall|k: int|
            0 <= k < models(out).len() ==> #[trigger] models(out)[k] == models(inp)[p[k]];
    assert(is_index_permutation(p, contents(inp).len() as int));
    assert forall|k: int| 0 <= k < contents(out).len() implies #[trigger] contents(out)[k] == contents(inp)[p[k]] by {
        assert(models(out)[k] == models(inp)[p[k]]);
    }
}

proof fn lemma_respects_contents(s: Seq<SchemaDifference>)
    requires
        respects_dependencies(models(s)),
    ensures
        respects_dependencies(contents(s)),
{
    assert forall|a: int, b: int|
        0 <= a < contents(s).len() && 0 <= b < contents(s).len() && #[trigger] depends_on(
            contents(s)[b],
            contents(s)[a],
        ) implies a < b by {
        assert(depends_on(models(s)[b], models(s)[a]));
    }
}


// ---------------------------------------------------------------------------
// Laws
// ---------------------------------------------------------------------------

proof fn lemma_all_classified_add(a: Seq<DifferenceModel>, b: Seq<DifferenceModel>)
    requires
        all_classified(a),
        all_classified(b),
    ensures
        all_classified(a + b),
{
    assert forall|k: int| 0 <= k < (a + b).len() implies #[trigger] classified((a + b)[k]) by {
        if k < a.len() {
            assert((a + b)[k] == a[k]);
        } else {
            assert((a + b)[k] == b[k - a.len()]);
        }
    }
}

proof fn lemma_additions_classified<T: DiffItem>(
    src: Seq<T>,
    tgt: Seq<T>,
    table_key: Seq<char>,
    n: nat,
)
    requires
        n <= src.len(),
    ensures
        all_classified(additions_upto(src, tgt, table_key, n)),
    decreases n,
{
    if n > 0 {
        lemma_additions_classified(src, tgt, table_key, (n - 1) as nat);
        src[n - 1].lemma_classified(table_key);
    }
}

proof fn lemma_deletions_classified<T: DiffItem>(
    src: Seq<T>,
    tgt: Seq<T>,
    table_key: Seq<char>,
    n: nat,
)
    requires
        n <= tgt.len(),
    ensures
        all_classified(deletions_upto(src, tgt, table_key, n)),
    decreases n,
{
    if n > 0 {
        lemma_deletions_classified(src, tgt, table_key, (n - 1) as nat);
        tgt[n - 1].lemma_classified(table_key);
    }
}

proof fn lemma_modifications_classified<T: ComparableItem>(
    src: Seq<T>,
    tgt: Seq<T>,
    table_key: Seq<char>,
    n: nat,
)
    requires
        n <= src.len(),
    ensures
        all_classified(modifications_upto(src, tgt, table_key, n)),
    decreases n,
{
    if n > 0 {
        let i = n - 1;
        lemma_modifications_classified(src, tgt, table_key, (n - 1) as nat);
        let j = last_key(keys_of(tgt), keys_of(src)[i]);
        if kept(keys_of(src), i) && j >= 0 {
            let m = src[i].modification(&tgt[j], table_key);
            src[i].lemma_modifications_classified(&tgt[j], table_key);
            assert forall|k: int| 0 <= k < m.len() implies #[trigger] classified(m[k]) by {
                assert(m[k].change_type == ChangeType::Modification);
            }
            lemma_all_classified_add(modifications_upto(src, tgt, table_key, (n - 1) as nat), m);
        }
    }
}

proof fn lemma_item_differences_classified<T: ComparableItem>(
    src: Seq<T>,
    tgt: Seq<T>,
    table_key: Seq<char>,
)
    ensures
        all_classified(item_differences(src, tgt, table_key)),
{
    lemma_additions_classified(src, tgt, table_key, src.len());
    lemma_deletions_classified(src, tgt, table_key, tgt.len());
    lemma_modifications_classified(src, tgt, table_key, src.len());
    lemma_all_classified_add(
        additions_upto(src, tgt, table_key, src.len()),
        deletions_upto(src, tgt, table_key, tgt.len()),
    );
    lemma_all_classified_add(
        additions_upto(src, tgt, table_key, src.len()) + deletions_upto(
            src,
            tgt,
            table_key,
            tgt.len(),
        ),
        modifications_upto(src, tgt, table_key, src.len()),
    );
}

proof fn lemma_table_details_classified(source: Table, target: Table)
    ensures
        all_classified(table_details(source, target)),
{
    let k = source.item_key();
    let cols = item_differences(source.columns@, target.columns@, k);
    let pk = primary_key_differences(
        k,
        primary_key_model(source.primary_key),
        primary_key_model(target.primary_key),
    );
    let fks = item_differences(source.foreign_keys@, target.foreign_keys@, k);
    let uqs = item_differences(source.unique_constraints@, target.unique_constraints@, k);
    let cks = item_differences(source.check_constraints@, target.check_constraints@, k);
    let ixs = item_differences(source.indexes@, target.indexes@, k);
    lemma_item_differences_classified(source.columns@, target.columns@, k);
    lemma_item_differences_classified(source.foreign_keys@, target.foreign_keys@, k);
    lemma_item_differences_classified(source.unique_constraints@, target.unique_constraints@, k);
    lemma_item_differences_classified(source.check_constraints@, target.check_constraints@, k);
    lemma_item_differences_classified(source.indexes@, target.indexes@, k);
    assert(all_classified(pk));
    lemma_all_classified_add(cols, pk);
    lemma_all_classified_add(cols + pk, fks);
    lemma_all_classified_add(cols + pk + fks, uqs);
    lemma_all_classified_add(cols + pk + fks + uqs, cks);
    lemma_all_classified_add(cols + pk + fks + uqs + cks, ixs);
}

proof fn lemma_table_modifications_classified(src: Seq<Table>, tgt: Seq<Table>, n: nat)
    requires
        n <= src.len(),
    ensures
        all_classified(table_modifications_upto(src, tgt, n)),
    decreases n,
{
    if n > 0 {
        let i = n - 1;
        lemma_table_modifications_classified(src, tgt, (n - 1) as nat);
        let j = last_key(keys_of(tgt), keys_of(src)[i]);
        if kept(keys_of(src), i) && j >= 0 {
            lemma_table_details_classified(src[i], tgt[j]);
            lemma_all_classified_add(
                table_modifications_upto(src, tgt, (n - 1) as nat),
                table_details(src[i], tgt[j]),
            );
        }
    }
}

/// Comparing two schemas never marks an addition as destructive, and marks every drop as
/// destructive except the drop of an index.
pub proof fn law_differences_are_classified(source: DatabaseSchema, target: DatabaseSchema)
    ensures
        all_classified(schema_differences(source, target)),
{
    let st = source.tables@;
    let tt = target.tables@;
    let e = Seq::<char>::empty();
    lemma_additions_classified(st, tt, e, st.len());
    lemma_deletions_classified(st, tt, e, tt.len());
    lemma_table_modifications_classified(st, tt, st.len());
    let a = additions_upto(st, tt, e, st.len());
    let d = deletions_upto(st, tt, e, tt.len());
    let m = table_modifications_upto(st, tt, st.len());
    lemma_all_classified_add(a, d);
    lemma_all_classified_add(a + d, m);
    let tables = table_differences(st, tt);
    let views = item_differences(source.views@, target.views@, e);
    let procs = item_differences(source.procedures@, target.procedures@, e);
    let funcs = item_differences(source.functions@, target.functions@, e);
    let trigs = item_differences(source.triggers@, target.triggers@, e);
    let seqs = item_differences(source.sequences@, target.sequences@, e);
    lemma_item_differences_classified(source.views@, target.views@, e);
    lemma_item_differences_classified(source.procedures@, target.procedures@, e);
    lemma_item_differences_classified(source.functions@, target.functions@, e);
    lemma_item_differences_classified(source.triggers@, target.triggers@, e);
    lemma_item_differences_classified(source.sequences@, target.sequences@, e);
    lemma_all_classified_add(tables, views);
    lemma_all_classified_add(tables + views, procs);
    lemma_all_classified_add(tables + views + procs, funcs);
    lemma_all_classified_add(tables + views + procs + funcs, trigs);
    lemma_all_classified_add(tables + views + procs + funcs + trigs, seqs);
}

proof fn lemma_additions_self<T: DiffItem>(s: Seq<T>, table_key: Seq<char>, n: nat)
    requires
        n <= s.len(),
    ensures
        additions_upto(s, s, table_key, n) == Seq::<DifferenceModel>::empty(),
        deletions_upto(s, s, table_key, n) == Seq::<DifferenceModel>::empty(),
    decreases n,
{
    if n > 0 {
        lemma_additions_self(s, table_key, (n - 1) as nat);
    }
}

proof fn lemma_modifications_self<T: ComparableItem>(s: Seq<T>, table_key: Seq<char>, n: nat)
    requires
        n <= s.len(),
    ensures
        modifications_upto(s, s, table_key, n) == Seq::<DifferenceModel>::empty(),
    decreases n,
{
    if n > 0 {
        let i = n - 1;
        lemma_modifications_self(s, table_key, (n - 1) as nat);
        if kept(keys_of(s), i) {
            s[i].lemma_unchanged(table_key);
            assert(Seq::<DifferenceModel>::empty() + Seq::<DifferenceModel>::empty()
                =~= Seq::<DifferenceModel>::empty());
        }
    }
}

proof fn lemma_item_differences_self<T: ComparableItem>(s: Seq<T>, table_key: Seq<char>)
    ensures
        item_differences(s, s, table_key) == Seq::<DifferenceModel>::empty(),
{
    lemma_additions_self(s, table_key, s.len());
    lemma_modifications_self(s, table_key, s.len());
    assert(Seq::<DifferenceModel>::empty() + Seq::<DifferenceModel>::empty()
        =~= Seq::<DifferenceModel>::empty());
}

proof fn lemma_table_details_self(t: Table)
    ensures
        table_details(t, t) == Seq::<DifferenceModel>::empty(),
{
    let k = t.item_key();
    lemma_item_differences_self(t.columns@, k);
    lemma_item_differences_self(t.foreign_keys@, k);
    lemma_item_differences_self(t.unique_constraints@, k);
    lemma_item_differences_self(t.check_constraints@, k);
    lemma_item_differences_self(t.indexes@, k);
    assert(Seq::<DifferenceModel>::empty() + Seq::<DifferenceModel>::empty()
        =~= Seq::<DifferenceModel>::empty());
}

proof fn lemma_table_modifications_self(s: Seq<Table>, n: nat)
    requires
        n <= s.len(),
    ensures
        table_modifications_upto(s, s, n) == Seq::<DifferenceModel>::empty(),
    decreases n,
{
    if n > 0 {
        let i = n - 1;
        lemma_table_modifications_self(s, (n - 1) as nat);
        if kept(keys_of(s), i) {
            lemma_table_details_self(s[i]);
            assert(Seq::<DifferenceModel>::empty() + Seq::<DifferenceModel>::empty()
                =~= Seq::<DifferenceModel>::empty());
        }
    }
}

/// A schema compared with itself shows no differences.
pub proof fn law_identical_schemas_have_no_differences(schema: DatabaseSchema)
    ensures
        schema_differences(schema, schema) == Seq::<DifferenceModel>::empty(),
{
    let e = Seq::<char>::empty();
    lemma_additions_self(schema.tables@, e, schema.tables@.len());
    lemma_table_modifications_self(schema.tables@, schema.tables@.len());
    lemma_item_differences_self(schema.views@, e);
    lemma_item_differences_self(schema.procedures@, e);
    lemma_item_differences_self(schema.functions@, e);
    lemma_item_differences_self(schema.triggers@, e);
    lemma_item_differences_self(schema.sequences@, e);
    assert(Seq::<DifferenceModel>::empty() + Seq::<DifferenceModel>::empty()
        =~= Seq::<DifferenceModel>::empty());
}

/// Additions, modifications and deletions together account for every difference.
pub proof fn law_summary_counts_add_up(s: Seq<DifferenceModel>)
    ensures
        count_change(s, ChangeType::Addition) + count_change(s, ChangeType::Modification)
            + count_change(s, ChangeType::Deletion) == s.len(),
        count_destructive(s) <= s.len(),
    decreases s.len(),
{
    if s.len() > 0 {
        law_summary_counts_add_up(s.drop_last());
    }
}

/// After marking, every drop is destructive, and marking twice is marking once.
pub proof fn law_marked_drops_are_destructive(d: DifferenceModel)
    ensures
        marked(d).change_type == ChangeType::Deletion ==> marked(d).destructive,
        marked(marked(d)) == marked(d),
        marked(d).content() == marked(d.content()),
{
}

/// Each count of a summary is the number of differences with that property, counted
/// independently: the differences whose change type is `c`, and those marked destructive.
pub proof fn law_summary_counts_are_filter_counts(s: Seq<DifferenceModel>)
    ensures
        count_change(s, ChangeType::Addition) == s.filter(
            |d: DifferenceModel| d.change_type == ChangeType::Addition,
        ).len(),
        count_change(s, ChangeType::Modification) == s.filter(
            |d: DifferenceModel| d.change_type == ChangeType::Modification,
        ).len(),
        count_change(s, ChangeType::Deletion) == s.filter(
            |d: DifferenceModel| d.change_type == ChangeType::Deletion,
        ).len(),
        count_destructive(s) == s.filter(|d: DifferenceModel| d.destructive).len(),
    decreases s.len(),
{
    if s.len() > 0 {
        let t = s.drop_last();
        law_summary_counts_are_filter_counts(t);
        assert(s == t.push(s.last()));
        t.lemma_filter_push(s.last(), |d: DifferenceModel| d.change_type == ChangeType::Addition);
        t.lemma_filter_push(s.last(), |d: DifferenceModel| d.change_type == ChangeType::Modification);
        t.lemma_filter_push(s.last(), |d: DifferenceModel| d.change_type == ChangeType::Deletion);
        t.lemma_filter_push(s.last(), |d: DifferenceModel| d.destructive);
    } else {
        reveal(Seq::filter);
    }
}

/// Two versions of a column that differ only in their default value are reported: comparing
/// the one column of the source with the one column of the target under the same name gives
/// exactly one difference, a Column Modification of that column carrying both versions.
pub proof fn law_changed_default_is_reported(a: Column, b: Column, table_key: Seq<char>)
    requires
        a.name@ == b.name@,
        a@.data_type == b@.data_type,
        a@.nullable == b@.nullable,
        a@.auto_increment == b@.auto_increment,
        a@.default_value != b@.default_value,
    ensures
        ({
            let d = item_differences(seq![a], seq![b], table_key);
            &&& d.len() == 1
            &&& d[0].object_type == SchemaObjectType::Column
            &&& d[0].change_type == ChangeType::Modification
            &&& d[0].object_name == table_key + "."@ + a.name@
            &&& d[0].source_value == Some(ObjectModel::Column(a@))
            &&& d[0].target_value == Some(ObjectModel::Column(b@))
        }),
{
    let src = seq![a];
    let tgt = seq![b];
    assert(keys_of(src) =~= seq![a.name@]);
    assert(keys_of(tgt) =~= seq![a.name@]);
    assert(seq![a.name@].drop_last() =~= Seq::<Seq<char>>::empty());
    assert(last_key(keys_of(src), a.name@) == 0);
    assert(last_key(keys_of(tgt), a.name@) == 0);
    assert(kept(keys_of(src), 0));
    assert(kept(keys_of(tgt), 0));
    assert(keys_of(src)[0] == a.name@);
    assert(keys_of(tgt)[0] == a.name@);
    assert(additions_upto(src, tgt, table_key, 0) == Seq::<DifferenceModel>::empty());
    assert(deletions_upto(src, tgt, table_key, 0) == Seq::<DifferenceModel>::empty());
    assert(modifications_upto(src, tgt, table_key, 0) == Seq::<DifferenceModel>::empty());
    assert(additions_upto(src, tgt, table_key, 1) == Seq::<DifferenceModel>::empty());
    assert(deletions_upto(src, tgt, table_key, 1) == Seq::<DifferenceModel>::empty());
    let m = a.modification(&b, table_key);
    assert(modifications_upto(src, tgt, table_key, 1) =~= Seq::<DifferenceModel>::empty() + m);
    assert(item_differences(src, tgt, table_key) =~= m);
}

} // verus!
