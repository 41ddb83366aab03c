//! The browsing-history database schema: its statements and the decision of
//! which to run for a given stored version. Executing them is the storage
//! engine's business; this module only decides and hands the ordered
//! statement lists out.

use vstd::prelude::*;
use crate::push::error::ErrorKind;

verus! {

/// The schema version these statements produce.
pub const VERSION: u64 = 2;

pub const CREATE_TABLE_PLACES_SQL: &'static str = "CREATE TABLE IF NOT EXISTS moz_places (
        id INTEGER PRIMARY KEY,
        url LONGVARCHAR NOT NULL,
        title LONGVARCHAR,
        -- note - desktop has rev_host here - that's now in moz_origin.
        visit_count_local INTEGER NOT NULL DEFAULT 0,
        visit_count_remote INTEGER NOT NULL DEFAULT 0,
        hidden INTEGER DEFAULT 0 NOT NULL,
        typed INTEGER DEFAULT 0 NOT NULL, -- XXX - is 'typed' ok? Note also we want this as a *count*, not a bool.
        frecency INTEGER DEFAULT -1 NOT NULL,
        -- XXX - splitting last visit into local and remote correct?
        last_visit_date_local INTEGER NOT NULL DEFAULT 0,
        last_visit_date_remote INTEGER NOT NULL DEFAULT 0,
        guid TEXT NOT NULL UNIQUE,
        foreign_count INTEGER DEFAULT 0 NOT NULL,
        url_hash INTEGER DEFAULT 0 NOT NULL,
        description TEXT, -- XXXX - title above?
        preview_image_url TEXT,
        -- origin_id would ideally be NOT NULL, but we use a trigger to keep
        -- it up to date, so do perform the initial insert with a null.
        origin_id INTEGER,
        -- a couple of sync-related fields.
        sync_status TINYINT NOT NULL DEFAULT 1, -- 1 is SyncStatus::New
        sync_change_counter INTEGER NOT NULL DEFAULT 0, -- adding visits will increment this

        FOREIGN KEY(origin_id) REFERENCES moz_origins(id) ON DELETE CASCADE
    )";

pub const CREATE_TABLE_PLACES_TOMBSTONES_SQL: &'static str = "CREATE TABLE IF NOT EXISTS moz_places_tombstones (
        guid TEXT PRIMARY KEY
    ) WITHOUT ROWID";

pub const CREATE_TABLE_HISTORYVISITS_SQL: &'static str = "CREATE TABLE moz_historyvisits (
        id INTEGER PRIMARY KEY,
        is_local INTEGER NOT NULL, -- XXX - not in desktop - will always be true for visits added locally, always false visits added by sync.
        from_visit INTEGER, -- XXX - self-reference?
        place_id INTEGER NOT NULL,
        visit_date INTEGER NOT NULL,
        visit_type INTEGER NOT NULL,
        -- session INTEGER, -- XXX - what is 'session'? Appears unused.

        FOREIGN KEY(place_id) REFERENCES moz_places(id) ON DELETE CASCADE,
        FOREIGN KEY(from_visit) REFERENCES moz_historyvisits(id)
    )";

pub const CREATE_TABLE_INPUTHISTORY_SQL: &'static str = "CREATE TABLE moz_inputhistory (
        place_id INTEGER NOT NULL,
        input LONGVARCHAR NOT NULL,
        use_count INTEGER,

        PRIMARY KEY (place_id, input),
        FOREIGN KEY(place_id) REFERENCES moz_places(id) ON DELETE CASCADE
    )";

pub const CREATE_TABLE_BOOKMARKS_SQL: &'static str = "CREATE TABLE moz_bookmarks (
        id INTEGER PRIMARY KEY,
        fk INTEGER,
        title TEXT,
        lastModified INTEGER NOT NULL DEFAULT 0,

        FOREIGN KEY(fk) REFERENCES moz_places(id) ON DELETE RESTRICT
    )";

pub const CREATE_TABLE_ORIGINS_SQL: &'static str = "CREATE TABLE moz_origins (
        id INTEGER PRIMARY KEY,
        prefix TEXT NOT NULL,
        host TEXT NOT NULL,
        rev_host TEXT NOT NULL,
        frecency INTEGER NOT NULL, -- XXX - why not default of -1 like in moz_places?
        UNIQUE (prefix, host)
    )";

pub const CREATE_TRIGGER_MOZPLACES_AFTERDELETE_ORIGINS: &'static str = "
    CREATE TEMP TRIGGER moz_places_afterdelete_trigger_origins
    AFTER DELETE ON moz_places
    FOR EACH ROW
    BEGIN
        INSERT INTO moz_updateoriginsdelete_temp (prefix, host, frecency_delta)
        VALUES (
            get_prefix(OLD.url),
            get_host_and_port(OLD.url),
            -MAX(OLD.frecency, 0)
        )
        ON CONFLICT(prefix, host) DO UPDATE
        SET frecency_delta = frecency_delta - OLD.frecency
        WHERE OLD.frecency > 0;
    END
";

pub const CREATE_TRIGGER_MOZPLACES_AFTERINSERT_REMOVE_TOMBSTONES: &'static str = "
    CREATE TEMP TRIGGER moz_places_afterinsert_trigger_tombstone
    AFTER INSERT ON moz_places
    FOR EACH ROW
    BEGIN
        DELETE FROM moz_places_tombstones WHERE guid = NEW.guid;
    END
";

pub const EXCLUDED_VISIT_TYPES: &'static str = "0, 4, 7, 8, 9";

pub const CREATE_TABLE_META_SQL: &'static str = "CREATE TABLE moz_meta (
        key TEXT PRIMARY KEY,
        value NOT NULL
    ) WITHOUT ROWID";

pub const CREATE_IDX_MOZ_PLACES_URL_HASH: &'static str = "CREATE INDEX url_hashindex ON moz_places(url_hash)";

pub const CREATE_IDX_MOZ_PLACES_VISITCOUNT_LOCAL: &'static str = "CREATE INDEX visitcountlocal ON moz_places(visit_count_local)";

pub const CREATE_IDX_MOZ_PLACES_VISITCOUNT_REMOTE: &'static str = "CREATE INDEX visitcountremote ON moz_places(visit_count_remote)";

pub const CREATE_IDX_MOZ_PLACES_FRECENCY: &'static str = "CREATE INDEX frecencyindex ON moz_places(frecency)";

pub const CREATE_IDX_MOZ_PLACES_LASTVISITDATE_LOCAL: &'static str = "CREATE INDEX lastvisitdatelocalindex ON moz_places(last_visit_date_local)";

pub const CREATE_IDX_MOZ_PLACES_LASTVISITDATE_REMOTE: &'static str = "CREATE INDEX lastvisitdateremoteindex ON moz_places(last_visit_date_remote)";

pub const CREATE_IDX_MOZ_PLACES_GUID: &'static str = "CREATE UNIQUE INDEX guid_uniqueindex ON moz_places(guid)";

pub const CREATE_IDX_MOZ_PLACES_ORIGIN_ID: &'static str = "CREATE INDEX originidindex ON moz_places(origin_id)";

pub const CREATE_IDX_MOZ_HISTORYVISITS_PLACEDATE: &'static str = "CREATE INDEX placedateindex ON moz_historyvisits(place_id, visit_date)";

pub const CREATE_IDX_MOZ_HISTORYVISITS_FROMVISIT: &'static str = "CREATE INDEX fromindex ON moz_historyvisits(from_visit)";

pub const CREATE_IDX_MOZ_HISTORYVISITS_VISITDATE: &'static str = "CREATE INDEX dateindex ON moz_historyvisits(visit_date)";

pub const CREATE_IDX_MOZ_HISTORYVISITS_ISLOCAL: &'static str = "CREATE INDEX islocalindex ON moz_historyvisits(is_local)";

pub const CREATE_IDX_MOZ_BOOKMARKS_PLACELASTMODIFIED: &'static str = "CREATE INDEX itemlastmodifiedindex ON moz_bookmarks(fk, lastModified)";

pub const CREATE_UPDATEORIGINSINSERT_TEMP: &'static str = "
    CREATE TEMP TABLE moz_updateoriginsinsert_temp (
        place_id INTEGER PRIMARY KEY,
        prefix TEXT NOT NULL,
        host TEXT NOT NULL,
        rev_host TEXT NOT NULL,
        frecency INTEGER NOT NULL
    )
";

pub const CREATE_UPDATEORIGINSDELETE_TEMP: &'static str = "
    CREATE TEMP TABLE moz_updateoriginsdelete_temp (
        prefix TEXT NOT NULL,
        host TEXT NOT NULL,
        frecency_delta INTEGER NOT NULL,
        PRIMARY KEY (prefix, host)
    ) WITHOUT ROWID
";

pub const CREATE_UPDATEORIGINSUPDATE_TEMP: &'static str = "
    CREATE TEMP TABLE moz_updateoriginsupdate_temp (
        prefix TEXT NOT NULL,
        host TEXT NOT NULL,
        frecency_delta INTEGER NOT NULL,
        PRIMARY KEY (prefix, host)
    ) WITHOUT ROWID
";

pub const CREATE_PLACES_AFTERUPDATE_FRECENCY_TRIGGER: &'static str = "
    CREATE TEMP TRIGGER moz_places_afterupdate_frecency_trigger
    AFTER UPDATE OF frecency ON moz_places FOR EACH ROW
    BEGIN

        INSERT INTO moz_updateoriginsupdate_temp (prefix, host, frecency_delta)
        VALUES (
            get_prefix(NEW.url),
            get_host_and_port(NEW.url),
            MAX(NEW.frecency, 0) - MAX(OLD.frecency, 0)
        )
        ON CONFLICT(prefix, host) DO UPDATE
        SET frecency_delta = frecency_delta + EXCLUDED.frecency_delta;
    END
";

pub const CREATE_PLACES_AFTERINSERT_TRIGGER_ORIGINS: &'static str = "
    CREATE TEMP TRIGGER moz_places_afterinsert_trigger_origins
    AFTER INSERT ON moz_places FOR EACH ROW
    BEGIN
        INSERT OR IGNORE INTO moz_updateoriginsinsert_temp (place_id, prefix, host, rev_host, frecency)
        VALUES (
            NEW.id,
            get_prefix(NEW.url),
            get_host_and_port(NEW.url),
            reverse_host(get_host_and_port(NEW.url)),
            NEW.frecency
        );
    END
";


pub const MOZ_META_KEY_ORIGIN_FRECENCY_COUNT: &'static str = "origin_frecency_count";

pub const MOZ_META_KEY_ORIGIN_FRECENCY_SUM: &'static str = "origin_frecency_sum";

pub const MOZ_META_KEY_ORIGIN_FRECENCY_SUM_OF_SQUARES: &'static str = "origin_frecency_sum_of_squares";

pub const HV_AI_0: &'static str = "
        CREATE TEMP TRIGGER moz_historyvisits_afterinsert_trigger
        AFTER INSERT ON moz_historyvisits FOR EACH ROW
        BEGIN
            UPDATE moz_places SET
                visit_count_remote = visit_count_remote + (NEW.visit_type NOT IN (";
pub const HV_AI_1: &'static str = ") AND NOT(NEW.is_local)),
                visit_count_local =  visit_count_local + (NEW.visit_type NOT IN (";
pub const HV_AI_2: &'static str = ") AND NEW.is_local),
                last_visit_date_local = MAX(last_visit_date_local,
                                            CASE WHEN NEW.is_local THEN NEW.visit_date ELSE 0 END),
                last_visit_date_remote = MAX(last_visit_date_remote,
                                             CASE WHEN NEW.is_local THEN 0 ELSE NEW.visit_date END)
            WHERE id = NEW.place_id;
        END";

/// The temp trigger that keeps per-place visit counts on insert.
/// The text of the after-insert visits trigger.
pub open spec fn hv_afterinsert_text() -> Seq<char> {
    HV_AI_0@ + EXCLUDED_VISIT_TYPES@ + HV_AI_1@ + EXCLUDED_VISIT_TYPES@ + HV_AI_2@
}

pub fn history_afterinsert_trigger() -> (r: String)
    ensures
        r@ == hv_afterinsert_text(),
{
    let mut out = String::new();
    out.append(HV_AI_0);
    out.append(EXCLUDED_VISIT_TYPES);
    out.append(HV_AI_1);
    out.append(EXCLUDED_VISIT_TYPES);
    out.append(HV_AI_2);
    out
}

pub const HV_AD_0: &'static str = "
        CREATE TEMP TRIGGER moz_historyvisits_afterdelete_trigger
        AFTER DELETE ON moz_historyvisits FOR EACH ROW
        BEGIN
            UPDATE moz_places SET
                visit_count_local = visit_count_local - (OLD.visit_type NOT IN (";
pub const HV_AD_1: &'static str = ") AND OLD.is_local),
                visit_count_remote = visit_count_remote - (OLD.visit_type NOT IN (";
pub const HV_AD_2: &'static str = ") AND NOT(OLD.is_local)),
                last_visit_date_local = IFNULL((SELECT visit_date FROM moz_historyvisits
                                                WHERE place_id = OLD.place_id AND is_local
                                                ORDER BY visit_date DESC LIMIT 1), 0),
                last_visit_date_remote = IFNULL((SELECT visit_date FROM moz_historyvisits
                                                 WHERE place_id = OLD.place_id AND NOT(is_local)
                                                 ORDER BY visit_date DESC LIMIT 1), 0)
            WHERE id = OLD.place_id;
        END";

/// The temp trigger that keeps per-place visit counts on delete.
/// The text of the after-delete visits trigger.
pub open spec fn hv_afterdelete_text() -> Seq<char> {
    HV_AD_0@ + EXCLUDED_VISIT_TYPES@ + HV_AD_1@ + EXCLUDED_VISIT_TYPES@ + HV_AD_2@
}

pub fn history_afterdelete_trigger() -> (r: String)
    ensures
        r@ == hv_afterdelete_text(),
{
    let mut out = String::new();
    out.append(HV_AD_0);
    out.append(EXCLUDED_VISIT_TYPES);
    out.append(HV_AD_1);
    out.append(EXCLUDED_VISIT_TYPES);
    out.append(HV_AD_2);
    out
}

pub const UOFS_0: &'static str = "
        INSERT OR REPLACE INTO moz_meta(key, value)
        SELECT
            '";
pub const UOFS_1: &'static str = "',
            IFNULL((SELECT value FROM moz_meta WHERE key = '";
pub const UOFS_2: &'static str = "'), 0)
                ";
pub const UOFS_3: &'static str = " CAST (frecency > 0 AS INT)
        FROM moz_origins WHERE prefix = OLD.prefix AND host = OLD.host
        UNION
        SELECT
            '";
pub const UOFS_4: &'static str = "',
            IFNULL((SELECT value FROM moz_meta WHERE key = '";
pub const UOFS_5: &'static str = "'), 0)
                ";
pub const UOFS_6: &'static str = " MAX(frecency, 0)
        FROM moz_origins WHERE prefix = OLD.prefix AND host = OLD.host
        UNION
        SELECT
            '";
pub const UOFS_7: &'static str = "',
            IFNULL((SELECT value FROM moz_meta WHERE key = '";
pub const UOFS_8: &'static str = "'), 0)
                ";
pub const UOFS_9: &'static str = " (MAX(frecency, 0) * MAX(frecency, 0))
        FROM moz_origins WHERE prefix = OLD.prefix AND host = OLD.host
    ";

/// The statement that moves an origin's contribution in or out of the frecency stats; `op` is `-` before a change and `+` after it.
pub fn update_origin_frecency_stats(op: &str) -> (r: String)
    ensures
        r@ == frecency_stats_text(op@),
{
    let mut out = String::new();
    out.append(UOFS_0);
    out.append(MOZ_META_KEY_ORIGIN_FRECENCY_COUNT);
    out.append(UOFS_1);
    out.append(MOZ_META_KEY_ORIGIN_FRECENCY_COUNT);
    out.append(UOFS_2);
    out.append(op);
    out.append(UOFS_3);
    out.append(MOZ_META_KEY_ORIGIN_FRECENCY_SUM);
    out.append(UOFS_4);
    out.append(MOZ_META_KEY_ORIGIN_FRECENCY_SUM);
    out.append(UOFS_5);
    out.append(op);
    out.append(UOFS_6);
    out.append(MOZ_META_KEY_ORIGIN_FRECENCY_SUM_OF_SQUARES);
    out.append(UOFS_7);
    out.append(MOZ_META_KEY_ORIGIN_FRECENCY_SUM_OF_SQUARES);
    out.append(UOFS_8);
    out.append(op);
    out.append(UOFS_9);
    out
}


/// The text `update_origin_frecency_stats` produces for a given operator.
pub open spec fn frecency_stats_text(op: Seq<char>) -> Seq<char> {
    UOFS_0@ + MOZ_META_KEY_ORIGIN_FRECENCY_COUNT@ + UOFS_1@ + MOZ_META_KEY_ORIGIN_FRECENCY_COUNT@ + UOFS_2@ + op + UOFS_3@ + MOZ_META_KEY_ORIGIN_FRECENCY_SUM@ + UOFS_4@ + MOZ_META_KEY_ORIGIN_FRECENCY_SUM@ + UOFS_5@ + op + UOFS_6@ + MOZ_META_KEY_ORIGIN_FRECENCY_SUM_OF_SQUARES@ + UOFS_7@ + MOZ_META_KEY_ORIGIN_FRECENCY_SUM_OF_SQUARES@ + UOFS_8@ + op + UOFS_9@
}

pub const OI_AD_0: &'static str = "
        CREATE TEMP TRIGGER moz_updateoriginsinsert_afterdelete_trigger
        AFTER DELETE ON moz_updateoriginsinsert_temp FOR EACH ROW
        BEGIN
            ";
pub const OI_AD_1: &'static str = ";

            INSERT INTO moz_origins (prefix, host, rev_host, frecency)
            VALUES (
                OLD.prefix,
                OLD.host,
                OLD.rev_host,
                MAX(OLD.frecency, 0)
            )
            ON CONFLICT(prefix, host) DO UPDATE
                SET frecency = frecency + OLD.frecency
                WHERE OLD.frecency > 0;

            ";
pub const OI_AD_2: &'static str = ";

            UPDATE moz_places SET origin_id = (
                SELECT id
                FROM moz_origins
                WHERE prefix = OLD.prefix
                AND host = OLD.host
            )
            WHERE id = OLD.place_id;
        END";

/// The temp trigger that folds accumulated origin inserts back into moz_origins and the frecency stats.
/// The text of the origins-insert flush trigger.
pub open spec fn oi_afterdelete_text() -> Seq<char> {
    OI_AD_0@ + frecency_stats_text("-"@) + OI_AD_1@ + frecency_stats_text("+"@) + OI_AD_2@
}

pub fn origins_insert_afterdelete_trigger() -> (r: String)
    ensures
        r@ == oi_afterdelete_text(),
{
    let dec = update_origin_frecency_stats("-");
    let inc = update_origin_frecency_stats("+");
    let mut out = String::new();
    out.append(OI_AD_0);
    out.append(dec.as_str());
    out.append(OI_AD_1);
    out.append(inc.as_str());
    out.append(OI_AD_2);
    out
}

pub const OD_AD_0: &'static str = "
        CREATE TEMP TRIGGER moz_updateoriginsdelete_afterdelete_trigger
        AFTER DELETE ON moz_updateoriginsdelete_temp FOR EACH ROW
        BEGIN
            ";
pub const OD_AD_1: &'static str = ";

            UPDATE moz_origins SET frecency = frecency + OLD.frecency_delta
            WHERE prefix = OLD.prefix AND host = OLD.host;

            DELETE FROM moz_origins
            WHERE prefix = OLD.prefix
              AND host = OLD.host
              AND NOT EXISTS (
                SELECT id FROM moz_places
                WHERE origin_id = moz_origins.id
                LIMIT 1
              );

            ";
pub const OD_AD_2: &'static str = ";

            -- Note: this is where desktop places deletes from moz_icons (so long as
            -- the icon is no longer referenced)
        END";

/// The temp trigger that folds accumulated origin deletes back into moz_origins and the frecency stats.
/// The text of the origins-delete flush trigger.
pub open spec fn od_afterdelete_text() -> Seq<char> {
    OD_AD_0@ + frecency_stats_text("-"@) + OD_AD_1@ + frecency_stats_text("+"@) + OD_AD_2@
}

pub fn origins_delete_afterdelete_trigger() -> (r: String)
    ensures
        r@ == od_afterdelete_text(),
{
    let dec = update_origin_frecency_stats("-");
    let inc = update_origin_frecency_stats("+");
    let mut out = String::new();
    out.append(OD_AD_0);
    out.append(dec.as_str());
    out.append(OD_AD_1);
    out.append(inc.as_str());
    out.append(OD_AD_2);
    out
}

/// The element views of a statement list.
pub open spec fn stmt_views(v: Seq<String>) -> Seq<Seq<char>> {
    Seq::new(v.len(), |i: int| v[i]@)
}

/// The statement that stamps the schema version.
pub fn user_version_pragma() -> (r: String)
    ensures
        r@ == "PRAGMA user_version = "@ + crate::json::udigits(2),
{
    let mut out = String::from_str("PRAGMA user_version = ");
    let digits = crate::json::u64_to_string(2);
    out.append(digits.as_str());
    out
}

/// The ordered statements of a fresh schema: tables, indices, and the
/// version stamp last.
pub open spec fn create_spec() -> Seq<Seq<char>> {
    seq![
        CREATE_TABLE_PLACES_SQL@,
        CREATE_TABLE_PLACES_TOMBSTONES_SQL@,
        CREATE_TABLE_HISTORYVISITS_SQL@,
        CREATE_TABLE_INPUTHISTORY_SQL@,
        CREATE_TABLE_BOOKMARKS_SQL@,
        CREATE_TABLE_ORIGINS_SQL@,
        CREATE_TABLE_META_SQL@,
        CREATE_IDX_MOZ_PLACES_URL_HASH@,
        CREATE_IDX_MOZ_PLACES_VISITCOUNT_LOCAL@,
        CREATE_IDX_MOZ_PLACES_VISITCOUNT_REMOTE@,
        CREATE_IDX_MOZ_PLACES_FRECENCY@,
        CREATE_IDX_MOZ_PLACES_LASTVISITDATE_LOCAL@,
        CREATE_IDX_MOZ_PLACES_LASTVISITDATE_REMOTE@,
        CREATE_IDX_MOZ_PLACES_GUID@,
        CREATE_IDX_MOZ_PLACES_ORIGIN_ID@,
        CREATE_IDX_MOZ_HISTORYVISITS_PLACEDATE@,
        CREATE_IDX_MOZ_HISTORYVISITS_FROMVISIT@,
        CREATE_IDX_MOZ_HISTORYVISITS_VISITDATE@,
        CREATE_IDX_MOZ_HISTORYVISITS_ISLOCAL@,
        CREATE_IDX_MOZ_BOOKMARKS_PLACELASTMODIFIED@,
        "PRAGMA user_version = "@ + crate::json::udigits(2),
    ]
}

/// The ordered temp tables and triggers set up on every connection.
pub open spec fn temp_spec() -> Seq<Seq<char>> {
    seq![
        hv_afterinsert_text(),
        hv_afterdelete_text(),
        CREATE_TRIGGER_MOZPLACES_AFTERDELETE_ORIGINS@,
        CREATE_TRIGGER_MOZPLACES_AFTERINSERT_REMOVE_TOMBSTONES@,
        CREATE_UPDATEORIGINSINSERT_TEMP@,
        CREATE_UPDATEORIGINSDELETE_TEMP@,
        CREATE_UPDATEORIGINSUPDATE_TEMP@,
        CREATE_PLACES_AFTERUPDATE_FRECENCY_TRIGGER@,
        CREATE_PLACES_AFTERINSERT_TRIGGER_ORIGINS@,
        oi_afterdelete_text(),
        od_afterdelete_text(),
    ]
}

/// The ordered statements that create a fresh schema.
pub fn create() -> (r: Vec<String>)
    ensures
        stmt_views(r@) == create_spec(),
{
    let mut out: Vec<String> = Vec::new();
    out.push(String::from_str(CREATE_TABLE_PLACES_SQL));
    out.push(String::from_str(CREATE_TABLE_PLACES_TOMBSTONES_SQL));
    out.push(String::from_str(CREATE_TABLE_HISTORYVISITS_SQL));
    out.push(String::from_str(CREATE_TABLE_INPUTHISTORY_SQL));
    out.push(String::from_str(CREATE_TABLE_BOOKMARKS_SQL));
    out.push(String::from_str(CREATE_TABLE_ORIGINS_SQL));
    out.push(String::from_str(CREATE_TABLE_META_SQL));
    out.push(String::from_str(CREATE_IDX_MOZ_PLACES_URL_HASH));
    out.push(String::from_str(CREATE_IDX_MOZ_PLACES_VISITCOUNT_LOCAL));
    out.push(String::from_str(CREATE_IDX_MOZ_PLACES_VISITCOUNT_REMOTE));
    out.push(String::from_str(CREATE_IDX_MOZ_PLACES_FRECENCY));
    out.push(String::from_str(CREATE_IDX_MOZ_PLACES_LASTVISITDATE_LOCAL));
    out.push(String::from_str(CREATE_IDX_MOZ_PLACES_LASTVISITDATE_REMOTE));
    out.push(String::from_str(CREATE_IDX_MOZ_PLACES_GUID));
    out.push(String::from_str(CREATE_IDX_MOZ_PLACES_ORIGIN_ID));
    out.push(String::from_str(CREATE_IDX_MOZ_HISTORYVISITS_PLACEDATE));
    out.push(String::from_str(CREATE_IDX_MOZ_HISTORYVISITS_FROMVISIT));
    out.push(String::from_str(CREATE_IDX_MOZ_HISTORYVISITS_VISITDATE));
    out.push(String::from_str(CREATE_IDX_MOZ_HISTORYVISITS_ISLOCAL));
    out.push(String::from_str(CREATE_IDX_MOZ_BOOKMARKS_PLACELASTMODIFIED));
    out.push(user_version_pragma());
    proof {
        assert(stmt_views(out@) =~= create_spec());
    }
    out
}

/// The ordered temp tables and triggers.
pub fn temp_statements() -> (r: Vec<String>)
    ensures
        stmt_views(r@) == temp_spec(),
{
    let mut out: Vec<String> = Vec::new();
    out.push(history_afterinsert_trigger());
    out.push(history_afterdelete_trigger());
    out.push(String::from_str(CREATE_TRIGGER_MOZPLACES_AFTERDELETE_ORIGINS));
    out.push(String::from_str(CREATE_TRIGGER_MOZPLACES_AFTERINSERT_REMOVE_TOMBSTONES));
    out.push(String::from_str(CREATE_UPDATEORIGINSINSERT_TEMP));
    out.push(String::from_str(CREATE_UPDATEORIGINSDELETE_TEMP));
    out.push(String::from_str(CREATE_UPDATEORIGINSUPDATE_TEMP));
    out.push(String::from_str(CREATE_PLACES_AFTERUPDATE_FRECENCY_TRIGGER));
    out.push(String::from_str(CREATE_PLACES_AFTERINSERT_TRIGGER_ORIGINS));
    out.push(origins_insert_afterdelete_trigger());
    out.push(origins_delete_afterdelete_trigger());
    proof {
        assert(stmt_views(out@) =~= temp_spec());
    }
    out
}

/// The ordered statements to run when a connection opens against a database
/// of the given stored version: everything for a fresh database, only the
/// temp statements when the schema is current or newer. A stored version
/// strictly between zero and the current one would need an upgrade path that
/// does not exist yet, and is refused by precondition.
pub fn init(user_version: u64) -> (r: Vec<String>)
    requires
        user_version == 0 || user_version >= VERSION,
    ensures
        user_version == 0 ==> stmt_views(r@) == create_spec() + temp_spec(),
        user_version != 0 ==> stmt_views(r@) == temp_spec(),
{
    let mut out: Vec<String> = Vec::new();
    if user_version == 0 {
        let mut c = create();
        out.append(&mut c);
    }
    let ghost base = stmt_views(out@);
    let mut t = temp_statements();
    let ghost tv = stmt_views(t@);
    out.append(&mut t);
    proof {
        assert(stmt_views(out@) =~= base + tv);
        if user_version == 0 {
            assert(stmt_views(out@) =~= create_spec() + temp_spec());
        } else {
            assert(stmt_views(out@) =~= temp_spec());
        }
    }
    out
}

/// There is no upgrade path yet: only a database already at the current
/// version passes through.
pub fn upgrade(from: u64) -> (r: Result<(), ErrorKind>)
    requires
        from == VERSION,
    ensures
        r is Ok,
{
    Ok(())
}

} // verus!
