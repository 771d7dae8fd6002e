//! Content-addressed thumbnail cache.
//!
//! Keys are 64-bit hashes of the absolute path; each row stores the
//! modification time at capture, the optional original size and type tag,
//! and the encoded preview.  An entry answers a lookup only while its
//! stored modification time equals the path's current one; a stale entry
//! behaves as a miss and is overwritten by the next regeneration.  The
//! persistent store is a SQLite database reached through `rusqlite`,
//! modelled here as a map from hash to row.

use vstd::prelude::*;

use rusqlite::OptionalExtension;


verus! {

#[verifier::external_type_specification]
#[verifier::external_body]
pub struct ExConnection(rusqlite::Connection);

#[verifier::external_type_specification]
#[verifier::external_body]
pub struct ExSqlError(rusqlite::Error);

/// The data one cache row carries: modification time at capture, optional
/// original byte size, optional type tag, and the preview bytes.
pub type ThumbRowData = (i64, Option<i64>, Option<Seq<char>>, Seq<u8>);

/// What the store holds, keyed by path hash.
pub uninterp spec fn thumb_rows(conn: rusqlite::Connection) -> Map<u64, ThumbRowData>;

/// The data of a row as the database hands it out.
pub open spec fn row_data(row: (i64, Option<i64>, Option<String>, Vec<u8>)) -> ThumbRowData {
    (
        row.0,
        row.1,
        match row.2 {
            Some(s) => Some(s@),
            None => None,
        },
        row.3@,
    )
}

/// Relies on `rusqlite::Connection::open`: opens or creates the database
/// file (the path `":memory:"` opens a transient in-memory store).
#[verifier::external_body]
fn db_open(path: &str) -> (r: Result<rusqlite::Connection, rusqlite::Error>) {
    rusqlite::Connection::open(path)
}

/// Relies on `rusqlite::Connection::execute_batch`: creates the `thumbs`
/// table keyed by `hash` when it is missing, which leaves existing rows
/// untouched.
#[verifier::external_body]
fn db_init(conn: &mut rusqlite::Connection) -> (r: Result<(), rusqlite::Error>)
    ensures
        r is Ok ==> thumb_rows(*final(conn)) == thumb_rows(*old(conn)),
{
    (&*conn).execute_batch(
        "CREATE TABLE IF NOT EXISTS thumbs (
            hash INTEGER PRIMARY KEY,
            mtime INTEGER NOT NULL,
            size INTEGER,
            filetype TEXT,
            thumb BLOB NOT NULL
        );
        PRAGMA journal_mode=WAL;
        PRAGMA synchronous=NORMAL;",
    )
}

/// Relies on `rusqlite::Connection::query_row` with `Row::get` as the
/// mapper, selecting from `thumbs` by hash (stored in two's complement):
/// yields the row under that key, or nothing.
#[verifier::external_body]
fn db_get(conn: &rusqlite::Connection, hash: u64) -> (r: Result<
    Option<(i64, Option<i64>, Option<String>, Vec<u8>)>,
    rusqlite::Error,
>)
    ensures
        r matches Ok(Some(row)) ==> thumb_rows(*conn).contains_key(hash) && row_data(row)
            == thumb_rows(*conn)[hash],
        r matches Ok(None) ==> !thumb_rows(*conn).contains_key(hash),
{
    conn.query_row(
        "SELECT mtime, size, filetype, thumb FROM thumbs WHERE hash = ?1",
        [hash as i64],
        |row| Ok((row.get(0)?, row.get(1)?, row.get(2)?, row.get(3)?)),
    ).optional()
}

/// Relies on `rusqlite::Connection::execute` with an
/// `INSERT .. ON CONFLICT(hash) DO UPDATE` statement: upserts the row
/// under the hash.  A failed statement is rolled back by the engine and
/// leaves the rows as they were.
#[verifier::external_body]
fn db_set(
    conn: &mut rusqlite::Connection,
    hash: u64,
    mtime: i64,
    size: Option<i64>,
    filetype: Option<&str>,
    thumb: &Vec<u8>,
) -> (r: Result<(), rusqlite::Error>)
    ensures
        r is Ok ==> thumb_rows(*final(conn)) == thumb_rows(*old(conn)).insert(
            hash,
            (
                mtime,
                size,
                match filetype {
                    Some(s) => Some(s@),
                    None => None,
                },
                thumb@,
            ),
        ),
        r is Err ==> thumb_rows(*final(conn)) == thumb_rows(*old(conn)),
{
    (&*conn).execute(
        "INSERT INTO thumbs (hash, mtime, size, filetype, thumb)
         VALUES (?1, ?2, ?3, ?4, ?5)
         ON CONFLICT(hash) DO UPDATE SET
             mtime = excluded.mtime,
             size = excluded.size,
             filetype = excluded.filetype,
             thumb = excluded.thumb;",
        (hash as i64, mtime, size, filetype, thumb.as_slice()),
    ).map(|_| ())
}

/// Relies on `rusqlite::Connection::execute` with a
/// `DELETE FROM thumbs WHERE mtime < ?1` statement: keeps exactly the
/// rows captured at or after the bound.
#[verifier::external_body]
fn db_prune(conn: &mut rusqlite::Connection, min_mtime: i64) -> (r: Result<(), rusqlite::Error>)
    ensures
        r is Ok ==> thumb_rows(*final(conn)) == Map::<u64, ThumbRowData>::new(
            |k: u64| thumb_rows(*old(conn)).contains_key(k) && thumb_rows(*old(conn))[k].0
                >= min_mtime,
            |k: u64| thumb_rows(*old(conn))[k],
        ),
{
    (&*conn).execute("DELETE FROM thumbs WHERE mtime < ?1;", [min_mtime]).map(|_| ())
}

/// The digest `xxh3_64` computes for a byte string: a pure function of
/// the bytes alone, left unspecified here.
pub uninterp spec fn path_hash(s: Seq<char>) -> u64;

/// Relies on `xxhash_rust::xxh3::xxh3_64`: a deterministic 64-bit digest
/// of the path's bytes.
#[verifier::external_body]
pub fn hash_path(path: &str) -> (h: u64)
    ensures
        h == path_hash(path@),
{
    xxhash_rust::xxh3::xxh3_64(path.as_bytes())
}

/// The cache failed to read or write its store.
#[derive(Clone, Copy, Debug, PartialEq, Eq, Structural)]
pub struct StorageError;

/// An open handle on the thumbnail store.
pub struct ThumbDb {
    conn: rusqlite::Connection,
}

/// What a lookup yields from given rows: the preview with its stored size
/// and type tag when the row under the hash was captured at `mtime`, a
/// miss otherwise.
pub open spec fn spec_lookup(rows: Map<u64, ThumbRowData>, hash: u64, mtime: i64) -> Option<
    (Seq<u8>, Option<i64>, Option<Seq<char>>),
> {
    if rows.contains_key(hash) && rows[hash].0 == mtime {
        Some((rows[hash].3, rows[hash].1, rows[hash].2))
    } else {
        None
    }
}

impl ThumbDb {
    /// The rows this handle reaches.
    pub closed spec fn rows(self) -> Map<u64, ThumbRowData> {
        thumb_rows(self.conn)
    }

    /// Open (or create) the thumbnail store at `path` and ensure its
    /// table exists.  The rows are whatever the store already held.
    pub fn open(path: &str) -> (r: Result<ThumbDb, StorageError>) {
        let mut conn = match db_open(path) {
            Ok(c) => c,
            Err(_) => {
                return Err(StorageError);
            },
        };
        match db_init(&mut conn) {
            Ok(_) => Ok(ThumbDb { conn }),
            Err(_) => Err(StorageError),
        }
    }
}

/// Accept a raw row only when it was captured at the current modification
/// time; anything else is a miss.
pub fn filter_fresh(row: Option<(i64, Option<i64>, Option<String>, Vec<u8>)>, mtime: i64) -> (r:
    Option<(Vec<u8>, Option<i64>, Option<String>)>)
    ensures
        match row {
            Some(t) => {
                if t.0 == mtime {
                    r matches Some(o) && o.0@ == t.3@ && o.1 == t.1 && (match (o.2, t.2) {
                        (Some(a), Some(b)) => a@ == b@,
                        (None, None) => true,
                        _ => false,
                    })
                } else {
                    r is None
                }
            },
            None => r is None,
        },
{
    match row {
        Some((row_mtime, size, filetype, thumb)) => {
            if row_mtime == mtime {
                Some((thumb, size, filetype))
            } else {
                None
            }
        },
        None => None,
    }
}

/// Read a preview from the cache.  Inside a working store, the result is
/// exactly what `spec_lookup` says: a hit precisely when the stored
/// modification time equals `mtime`.
pub fn get_thumb(db: &ThumbDb, hash: u64, mtime: i64) -> (r: Result<
    Option<(Vec<u8>, Option<i64>, Option<String>)>,
    StorageError,
>)
    ensures
        r matches Ok(o) ==> match (o, spec_lookup(db.rows(), hash, mtime)) {
            (Some(got), Some(want)) => got.0@ == want.0 && got.1 == want.1 && (match (
                got.2,
                want.2,
            ) {
                (Some(a), Some(b)) => a@ == b,
                (None, None) => true,
                _ => false,
            }),
            (None, None) => true,
            _ => false,
        },
{
    match db_get(&db.conn, hash) {
        Ok(row) => Ok(filter_fresh(row, mtime)),
        Err(_) => Err(StorageError),
    }
}

/// Upsert a preview: afterwards the store holds exactly this row under
/// the hash, and every other key is untouched.
pub fn set_thumb(
    db: &mut ThumbDb,
    hash: u64,
    mtime: i64,
    size: Option<i64>,
    filetype: Option<&str>,
    thumb: &Vec<u8>,
) -> (r: Result<(), StorageError>)
    ensures
        r is Ok ==> final(db).rows() == old(db).rows().insert(
            hash,
            (
                mtime,
                size,
                match filetype {
                    Some(s) => Some(s@),
                    None => None,
                },
                thumb@,
            ),
        ),
        r is Err ==> final(db).rows() == old(db).rows(),
{
    match db_set(&mut db.conn, hash, mtime, size, filetype, thumb) {
        Ok(_) => Ok(()),
        Err(_) => Err(StorageError),
    }
}

/// Age-based pruning: drop every row captured before `min_mtime`.
pub fn prune_thumbs(db: &mut ThumbDb, min_mtime: i64) -> (r: Result<(), StorageError>)
    ensures
        r is Ok ==> final(db).rows() == Map::<u64, ThumbRowData>::new(
            |k: u64| old(db).rows().contains_key(k) && old(db).rows()[k].0 >= min_mtime,
            |k: u64| old(db).rows()[k],
        ),
{
    match db_prune(&mut db.conn, min_mtime) {
        Ok(_) => Ok(()),
        Err(_) => Err(StorageError),
    }
}

/// The cache round-trips: a stored preview is returned by a lookup at the
/// same modification time, and a lookup at any other modification time
/// misses.
pub proof fn lemma_cache_round_trip(
    rows: Map<u64, ThumbRowData>,
    hash: u64,
    mtime: i64,
    size: Option<i64>,
    filetype: Option<Seq<char>>,
    bytes: Seq<u8>,
    probe_mtime: i64,
)
    ensures
        spec_lookup(rows.insert(hash, (mtime, size, filetype, bytes)), hash, mtime) == Some(
            (bytes, size, filetype),
        ),
        probe_mtime != mtime ==> spec_lookup(
            rows.insert(hash, (mtime, size, filetype, bytes)),
            hash,
            probe_mtime,
        ) is None,
{
}

} // verus!
