//! The encrypted history database: its password, its rows, and what the
//! outcomes of the calls to the keyring and the database amount to.

use vstd::prelude::*;
use vstd::string::*;

use crate::crypto::{base64_encode, random_bytes, KEY_LEN};
use crate::payload::{decrypt_payload, derive_cipher, encrypt_payload, Cipher};
use crate::text::{append_decimal, describe_failure, starts_with};

verus! {

/// The name under which the keyring keeps the password.
pub const KEYRING_SERVICE: &'static str = "cursor-clip";

/// The user name under which the keyring keeps the password.
pub const KEYRING_DB_USERNAME: &'static str = "clipboard-db-key";

/// The statement that makes the history table, unless it is there.
pub const CREATE_TABLE: &'static str = "CREATE TABLE IF NOT EXISTS clipboard_history (item_id BIGINT PRIMARY KEY, item_json TEXT NOT NULL, created_ts BIGINT NOT NULL, pinned BOOLEAN NOT NULL)";

/// The statement that counts the rows of the history table.
pub const COUNT_ITEMS: &'static str = "SELECT COUNT(*) FROM clipboard_history";

/// The statement that reads the payloads: pinned items first, then the newest
/// ones, and of those the ones with the greatest numbers.
pub const SELECT_ITEMS: &'static str = "SELECT item_json FROM clipboard_history ORDER BY pinned DESC, created_ts DESC, item_id DESC";

/// The statement that empties the history table.
pub const DELETE_ITEMS: &'static str = "DELETE FROM clipboard_history";

/// The statement that inserts a row, with its number, payload, time and pin.
pub const INSERT_ITEM: &'static str = "INSERT INTO clipboard_history (item_id, item_json, created_ts, pinned) VALUES ($1, $2, $3, $4)";

/// What the log says when the database could not be kept in step.
pub open spec fn sync_warning(context: Seq<char>, err: Seq<char>) -> Seq<char> {
    "Persistence "@ + context + " failed: "@ + err
}

/// The warning for a database that could not be kept in step.
pub fn warn_persistence_sync_error(context: &str, err: &str) -> (message: String)
    ensures
        message@ == sync_warning(context@, err@),
{
    let mut message = "Persistence ".to_owned();
    message.append(context);
    message.append(" failed: ");
    message.append(err);
    message
}

/// What became of asking the keyring for the password.
pub enum KeyringRead {
    /// There is no keyring to ask.
    NoEntryHandle(String),
    /// The keyring holds this password.
    Found(String),
    /// The keyring holds no password.
    Missing,
    /// The keyring could not be read.
    Failed(String),
}

/// The password in the keyring, if it holds one.
pub fn read_db_password_from_keyring_once(read: KeyringRead) -> (r: Result<Option<String>, String>)
    ensures
        match read {
            KeyringRead::NoEntryHandle(e) => r matches Err(message) && message@ == crate::text::failure(
                "Failed to create keyring entry"@,
                e@,
            ),
            KeyringRead::Found(password) => r == Ok::<Option<String>, String>(Some(password)),
            KeyringRead::Missing => r == Ok::<Option<String>, String>(None),
            KeyringRead::Failed(e) => r matches Err(message) && message@ == crate::text::failure(
                "Failed to read DB password from keyring"@,
                e@,
            ),
        },
{
    match read {
        KeyringRead::NoEntryHandle(e) => Err(
            describe_failure("Failed to create keyring entry", e.as_str()),
        ),
        KeyringRead::Found(password) => Ok(Some(password)),
        KeyringRead::Missing => Ok(None),
        KeyringRead::Failed(e) => Err(
            describe_failure("Failed to read DB password from keyring", e.as_str()),
        ),
    }
}

/// Where the setup of a new password stands.
pub enum PasswordSetup {
    /// The password is to be put into the keyring.
    Store(String),
    /// The password was stored and is to be read back.
    ReadBack(String),
    /// The setup is over.
    Finished(Result<String, String>),
}

/// The password that is made of some random bytes: their Base64 form, from which
/// they can be read again.
pub fn password_of(bytes: &Vec<u8>) -> (password: String)
    requires
        crate::crypto::base64_len(bytes@.len()) <= isize::MAX,
    ensures
        password@ == crate::crypto::base64_text(bytes@),
        password@.len() == crate::crypto::base64_len(bytes@.len()),
        crate::crypto::is_base64_alphabet(password@),
        crate::crypto::base64_bytes(password@) == Ok::<Seq<u8>, Seq<char>>(bytes@),
{
    base64_encode(bytes.as_slice())
}

/// Begins the setup of a new password: 32 random bytes in Base64. `entry` is
/// the error of opening the keyring entry, if there was one.
pub fn generate_and_store_db_password(entry: Option<String>) -> (next: PasswordSetup)
    ensures
        match entry {
            Some(e) => next matches PasswordSetup::Finished(Err(message)) && message@ == crate::text::failure(
                "Failed to create keyring entry"@,
                e@,
            ),
            None => next matches PasswordSetup::Store(password) && {
                &&& exists|bytes: Seq<u8>|
                    bytes.len() == KEY_LEN && password@ == #[trigger] crate::crypto::base64_text(
                        bytes,
                    )
                &&& password@.len() == crate::crypto::base64_len(KEY_LEN as nat)
                &&& crate::crypto::is_base64_alphabet(password@)
            },
        },
{
    match entry {
        Some(e) => PasswordSetup::Finished(
            Err(describe_failure("Failed to create keyring entry", e.as_str())),
        ),
        None => {
            let bytes = random_bytes(KEY_LEN);
            PasswordSetup::Store(password_of(&bytes))
        },
    }
}

/// Goes on after the password was handed to the keyring. `error` is what the
/// keyring objected, if it did.
pub fn password_stored(password: String, error: Option<String>) -> (next: PasswordSetup)
    ensures
        match error {
            Some(e) => next matches PasswordSetup::Finished(Err(message)) && message@ == crate::text::failure(
                "Failed to store DB password in keyring"@,
                e@,
            ),
            None => next == PasswordSetup::ReadBack(password),
        },
{
    match error {
        Some(e) => PasswordSetup::Finished(
            Err(describe_failure("Failed to store DB password in keyring", e.as_str())),
        ),
        None => PasswordSetup::ReadBack(password),
    }
}

/// Ends the setup with what the keyring gave back. The password counts only if
/// it came back unchanged, so that nothing is encrypted with one that is lost.
pub fn password_read_back(password: String, read: Result<String, String>) -> (next: PasswordSetup)
    ensures
        match read {
            Err(e) => next matches PasswordSetup::Finished(Err(message)) && message@ == crate::text::failure(
                "Failed to verify DB password in keyring"@,
                e@,
            ),
            Ok(stored) => if stored@ == password@ {
                next == PasswordSetup::Finished(Ok(password))
            } else {
                next matches PasswordSetup::Finished(Err(message)) && message@
                    == "Stored DB password in keyring did not round-trip correctly"@
            },
        },
{
    match read {
        Err(e) => PasswordSetup::Finished(
            Err(describe_failure("Failed to verify DB password in keyring", e.as_str())),
        ),
        Ok(stored) => if stored == password {
            PasswordSetup::Finished(Ok(password))
        } else {
            PasswordSetup::Finished(
                Err("Stored DB password in keyring did not round-trip correctly".to_owned()),
            )
        },
    }
}

/// The address of the database at `path`.
pub fn database_address(path: &str) -> (dsn: String)
    ensures
        dsn@ == "file://"@ + path@,
{
    let mut dsn = "file://".to_owned();
    dsn.append(path);
    dsn
}

/// What is reported of a database that cannot be opened.
pub open spec fn open_failure(path: Seq<char>, reason: Seq<char>) -> Seq<char> {
    crate::text::failure("Failed to open Stoolap database at "@ + path, reason)
}

fn describe_open_failure(path: &str, reason: &str) -> (message: String)
    ensures
        message@ == open_failure(path@, reason@),
{
    let mut what = "Failed to open Stoolap database at ".to_owned();
    what.append(path);
    describe_failure(what.as_str(), reason)
}

/// How far a look into the database for stored items came.
pub enum ItemProbe {
    /// There is no database file.
    NoFile,
    /// The database could not be opened.
    OpenFailed(String),
    /// The table could not be created.
    SchemaFailed(String),
    /// The rows could not be counted.
    CountFailed(String),
    /// The number of rows.
    Counted(i64),
}

/// Whether the database at `path` holds any item.
pub fn db_has_persisted_items(path: &str, probe: ItemProbe) -> (r: Result<bool, String>)
    ensures
        match probe {
            ItemProbe::NoFile => r == Ok::<bool, String>(false),
            ItemProbe::OpenFailed(e) => r matches Err(message) && message@ == open_failure(
                path@,
                e@,
            ),
            ItemProbe::SchemaFailed(e) => r matches Err(message) && message@ == crate::text::failure(
                "Failed to initialize persistence schema"@,
                e@,
            ),
            ItemProbe::CountFailed(e) => r matches Err(message) && message@ == crate::text::failure(
                "Failed to count persisted items"@,
                e@,
            ),
            ItemProbe::Counted(count) => r == Ok::<bool, String>(count > 0),
        },
{
    match probe {
        ItemProbe::NoFile => Ok(false),
        ItemProbe::OpenFailed(e) => Err(describe_open_failure(path, e.as_str())),
        ItemProbe::SchemaFailed(e) => Err(
            describe_failure("Failed to initialize persistence schema", e.as_str()),
        ),
        ItemProbe::CountFailed(e) => Err(
            describe_failure("Failed to count persisted items", e.as_str()),
        ),
        ItemProbe::Counted(count) => Ok(count > 0),
    }
}

/// The message for a number that a signed column cannot hold.
pub open spec fn range_failure(value: u64) -> Seq<char> {
    "Value "@ + crate::text::decimal(value as nat) + " exceeds i64 range"@
}

/// `value` as a signed number, if it is one.
pub fn u64_to_i64(value: u64) -> (r: Result<i64, String>)
    ensures
        match r {
            Ok(signed) => signed == value,
            Err(message) => value > i64::MAX && message@ == range_failure(value),
        },
{
    if value <= i64::MAX as u64 {
        Ok(value as i64)
    } else {
        let mut message = "Value ".to_owned();
        append_decimal(&mut message, value as u128);
        message.append(" exceeds i64 range");
        Err(message)
    }
}

/// How far the opening of the database came.
pub enum OpenOutcome {
    /// The directory of the database could not be created.
    DirectoryFailed(String),
    /// The database could not be opened.
    OpenFailed(String),
    /// The table could not be created.
    SchemaFailed(String),
    /// The database is open and has its table.
    Opened,
}

/// An item that is to be stored: what the columns hold, and the item in JSON or
/// the reason why it could not be written so.
pub struct SaveItem {
    pub item_id: u64,
    pub timestamp: u64,
    pub pinned: bool,
    pub json: Result<String, String>,
}

/// A row of the history table.
pub struct StoredRow {
    pub item_id: i64,
    pub payload: String,
    pub created_ts: i64,
    pub pinned: bool,
}

/// The rows to insert, in this order, and the error to report once they are in.
pub struct SavePlan {
    pub rows: Vec<StoredRow>,
    pub error: Option<String>,
}

/// A row as it came from the database.
pub enum FetchedRow {
    /// The row could not be read.
    Unreadable(String),
    /// The row's payload is no text.
    NotText(String),
    /// The row's payload.
    Payload(String),
}

/// The items in JSON, in this order, and the error to report once they have
/// been looked at.
pub struct LoadOutcome {
    pub items: Vec<String>,
    pub error: Option<String>,
}

/// What is reported of one item: what failed, the item's number, the reason.
pub open spec fn item_failure(what: Seq<char>, item_id: u64, reason: Seq<char>) -> Seq<char> {
    crate::text::failure(what + " clipboard item "@ + crate::text::decimal(item_id as nat), reason)
}

fn describe_item_failure(what: &str, item_id: u64, reason: &str) -> (message: String)
    ensures
        message@ == item_failure(what@, item_id, reason@),
{
    let mut text = what.to_owned();
    text.append(" clipboard item ");
    append_decimal(&mut text, item_id as u128);
    describe_failure(text.as_str(), reason)
}

/// What is reported of a row that the database would not take.
pub fn describe_insert_failure(item_id: u64, reason: &str) -> (message: String)
    ensures
        message@ == item_failure("Failed to persist"@, item_id, reason@),
{
    describe_item_failure("Failed to persist", item_id, reason)
}

/// What is reported of a payload that is no item in JSON.
pub fn describe_parse_failure(reason: &str) -> (message: String)
    ensures
        message@ == crate::text::failure(
            "Failed to deserialize persisted clipboard item payload"@,
            reason@,
        ),
{
    describe_failure("Failed to deserialize persisted clipboard item payload", reason)
}

/// Why an item cannot be stored; nothing if it can.
pub open spec fn refusal(item: SaveItem) -> Option<Seq<char>> {
    match item.json {
        Err(e) => Some(item_failure("Failed to serialize"@, item.item_id, e@)),
        Ok(json) => if vstd::utf8::encode_utf8(json@).len() > crate::crypto::MAX_PLAINTEXT_LEN {
            Some(
                item_failure(
                    "Failed to encrypt"@,
                    item.item_id,
                    "Encryption failed: aead::Error"@,
                ),
            )
        } else if item.item_id > i64::MAX {
            Some(range_failure(item.item_id))
        } else if item.timestamp > i64::MAX {
            Some(range_failure(item.timestamp))
        } else {
            None
        },
    }
}

/// Whether an item has what it takes to be stored: its JSON, of no more bytes than
/// AES-GCM takes, and a number and a time that the table's columns hold.
pub open spec fn can_be_stored(item: SaveItem) -> bool {
    &&& item.json matches Ok(json) && vstd::utf8::encode_utf8(json@).len() <= 68719476704
    &&& item.item_id <= 9223372036854775807
    &&& item.timestamp <= 9223372036854775807
}

/// Whether `row` holds `item`: the same columns, and a payload that is the
/// item's JSON sealed under some nonce and reads as that JSON again.
pub open spec fn row_holds(key: Seq<u8>, item: SaveItem, row: StoredRow) -> bool {
    &&& row.item_id == item.item_id
    &&& row.created_ts == item.timestamp
    &&& row.pinned == item.pinned
    &&& item.json matches Ok(json) && {
        &&& exists|nonce: Seq<u8>|
            nonce.len() == crate::crypto::NONCE_LEN && row.payload@
                == #[trigger] crate::payload::sealed_payload(key, nonce, json@)
        &&& row_json(key, row.payload@) == Ok::<Seq<char>, Seq<char>>(json@)
    }
}

/// The JSON that a stored payload stands for. A payload with the mark of an
/// encrypted one has to decrypt; any other is the JSON itself.
pub open spec fn row_json(key: Seq<u8>, payload: Seq<char>) -> Result<Seq<char>, Seq<char>> {
    if crate::text::occurs_at(payload, crate::payload::payload_prefix(), 0) {
        crate::payload::decrypted(key, payload)
    } else {
        Ok(payload)
    }
}

/// The JSON that a fetched row stands for, or the reason why there is none.
pub open spec fn fetched_json(key: Seq<u8>, row: FetchedRow) -> Result<Seq<char>, Seq<char>> {
    match row {
        FetchedRow::Unreadable(e) => Err(crate::text::failure("Failed to read persisted row"@, e@)),
        FetchedRow::NotText(e) => Err(crate::text::failure("Failed to parse persisted row payload"@, e@)),
        FetchedRow::Payload(payload) => row_json(key, payload@),
    }
}

/// Whether the JSON of `item`, if there is any, can be stored on this machine.
pub open spec fn item_fits(item: SaveItem) -> bool {
    item.json matches Ok(json) ==> crate::payload::payload_fits(json@)
}

/// What a save of `history` has to come to: a row for every item in front of the
/// first that cannot be stored, and that item's error if there is one; no row and
/// an error if the table could not be emptied.
pub open spec fn saves(
    key: Seq<u8>,
    clear_error: Option<String>,
    history: Seq<SaveItem>,
    plan: SavePlan,
) -> bool {
    &&& plan.rows@.len() <= history.len()
    &&& forall|i: int|
        0 <= i < plan.rows@.len() ==> refusal(#[trigger] history[i]) is None && row_holds(
            key,
            history[i],
            plan.rows@[i],
        )
    &&& match (clear_error, plan.error) {
        (Some(e), error) => plan.rows@.len() == 0 && (error matches Some(message) && message@
            == crate::text::failure("Failed to clear persisted history"@, e@)),
        (None, None) => plan.rows@.len() == history.len(),
        (None, Some(message)) => plan.rows@.len() < history.len() && refusal(
            history[plan.rows@.len() as int],
        ) == Some(message@),
    }
}

/// What a load of `rows` has to come to: the JSON of every row in front of the
/// first that cannot be read, and that row's error if there is one; no item and
/// an error if the rows could not be asked for.
pub open spec fn loads(
    key: Seq<u8>,
    query_error: Option<String>,
    rows: Seq<FetchedRow>,
    outcome: LoadOutcome,
) -> bool {
    &&& outcome.items@.len() <= rows.len()
    &&& forall|i: int|
        0 <= i < outcome.items@.len() ==> fetched_json(key, #[trigger] rows[i]) == Ok::<
            Seq<char>,
            Seq<char>,
        >(outcome.items@[i]@)
    &&& match (query_error, outcome.error) {
        (Some(e), error) => outcome.items@.len() == 0 && (error matches Some(message) && message@
            == crate::text::failure("Failed to query persisted history"@, e@)),
        (None, None) => outcome.items@.len() == rows.len(),
        (None, Some(message)) => outcome.items@.len() < rows.len() && fetched_json(
            key,
            rows[outcome.items@.len() as int],
        ) == Err::<Seq<char>, Seq<char>>(message@),
    }
}

/// Whether what has these columns stands in front of something else when the
/// table is read with [`SELECT_ITEMS`]: pinned before unpinned, then by the later
/// time, then by the greater number.
pub open spec fn stands_before(
    pinned: bool,
    time: int,
    number: int,
    other_pinned: bool,
    other_time: int,
    other_number: int,
) -> bool {
    if pinned != other_pinned {
        pinned
    } else if time != other_time {
        time > other_time
    } else {
        number > other_number
    }
}

/// Whether a row stands in front of another when the table is read.
pub open spec fn row_before(a: StoredRow, b: StoredRow) -> bool {
    stands_before(
        a.pinned,
        a.created_ts as int,
        a.item_id as int,
        b.pinned,
        b.created_ts as int,
        b.item_id as int,
    )
}

/// Whether an item stands in front of another when the table is read.
pub open spec fn item_before(a: SaveItem, b: SaveItem) -> bool {
    stands_before(
        a.pinned,
        a.timestamp as int,
        a.item_id as int,
        b.pinned,
        b.timestamp as int,
        b.item_id as int,
    )
}

/// Whether `order` names each of the first `n` places once.
pub open spec fn is_arrangement(order: Seq<int>, n: nat) -> bool {
    &&& order.len() == n
    &&& order.no_duplicates()
    &&& forall|i: int| 0 <= i < n ==> 0 <= #[trigger] order[i] < n
}

/// Whether `fetched` is what reading the table gives once it holds `rows`: the
/// payload of each row once, arranged by `order`, none in front of one that has
/// to stand before it.
pub open spec fn reads_table(rows: Seq<StoredRow>, order: Seq<int>, fetched: Seq<FetchedRow>) -> bool {
    &&& is_arrangement(order, rows.len())
    &&& fetched.len() == rows.len()
    &&& forall|i: int|
        0 <= i < rows.len() ==> (#[trigger] fetched[i] matches FetchedRow::Payload(payload)
            && payload@ == rows[order[i]].payload@)
    &&& forall|i: int, j: int|
        0 <= i < j < rows.len() ==> !row_before(rows[#[trigger] order[j]], rows[#[trigger] order[i]])
}

/// The history database, as far as it is not in the database itself: the cipher
/// of its payloads.
pub struct ClipboardPersistence {
    cipher: Cipher,
}

impl View for ClipboardPersistence {
    type V = Seq<u8>;

    closed spec fn view(&self) -> Seq<u8> {
        self.cipher@
    }
}

impl ClipboardPersistence {
    /// Opens the database at `path` with `password`, given how far the calls to
    /// the file system and the database came.
    pub fn open_default(path: &str, password: &str, outcome: OpenOutcome) -> (r: Result<Self, String>)
        ensures
            match outcome {
                OpenOutcome::DirectoryFailed(e) => r matches Err(message) && message@ == crate::text::failure(
                    "Failed to create persistence directory"@,
                    e@,
                ),
                OpenOutcome::OpenFailed(e) => r matches Err(message) && message@ == open_failure(
                    path@,
                    e@,
                ),
                OpenOutcome::SchemaFailed(e) => r matches Err(message) && message@ == crate::text::failure(
                    "Failed to initialize persistence schema"@,
                    e@,
                ),
                OpenOutcome::Opened => r matches Ok(persistence) && persistence@
                    == crate::crypto::sha256_digest(vstd::utf8::encode_utf8(password@)),
            },
    {
        match outcome {
            OpenOutcome::DirectoryFailed(e) => Err(
                describe_failure("Failed to create persistence directory", e.as_str()),
            ),
            OpenOutcome::OpenFailed(e) => Err(describe_open_failure(path, e.as_str())),
            OpenOutcome::SchemaFailed(e) => Err(
                describe_failure("Failed to initialize persistence schema", e.as_str()),
            ),
            OpenOutcome::Opened => Ok(ClipboardPersistence { cipher: derive_cipher(password) }),
        }
    }

    /// The row that `item` is stored as, or the reason why it cannot be stored.
    pub fn prepare_row(&self, item: &SaveItem) -> (r: Result<StoredRow, String>)
        requires
            item_fits(*item),
        ensures
            match r {
                Ok(row) => refusal(*item) is None && row_holds(self@, *item, row),
                Err(message) => refusal(*item) == Some(message@),
            },
            r is Ok <==> can_be_stored(*item),
    {
        let json = match &item.json {
            Ok(json) => json,
            Err(e) => {
                return Err(describe_item_failure("Failed to serialize", item.item_id, e.as_str()));
            },
        };
        let payload = match encrypt_payload(&self.cipher, json.as_str()) {
            Ok(payload) => payload,
            Err(e) => {
                return Err(describe_item_failure("Failed to encrypt", item.item_id, e.as_str()));
            },
        };
        proof {
            let nonce = choose|nonce: Seq<u8>|
                nonce.len() == crate::crypto::NONCE_LEN && Ok::<Seq<char>, Seq<char>>(payload@)
                    == #[trigger] crate::payload::encrypted(self@, nonce, json@);
            assert(payload@ == crate::payload::sealed_payload(self@, nonce, json@));
            crate::payload::lemma_framed_is_marked(
                crate::crypto::base64_text(nonce),
                crate::crypto::base64_text(
                    crate::crypto::aes_sealed(self@, nonce, vstd::utf8::encode_utf8(json@)),
                ),
            );
        }
        let item_id = match u64_to_i64(item.item_id) {
            Ok(item_id) => item_id,
            Err(message) => {
                return Err(message);
            },
        };
        let created_ts = match u64_to_i64(item.timestamp) {
            Ok(created_ts) => created_ts,
            Err(message) => {
                return Err(message);
            },
        };
        Ok(StoredRow { item_id, payload, created_ts, pinned: item.pinned })
    }

    /// What to store for `history` once the table has been emptied: a row for
    /// every item in front of the first that cannot be stored, and that item's
    /// error if there is one. `clear_error` is why the table could not be emptied,
    /// if it could not; nothing is stored then.
    pub fn save_history(&self, clear_error: Option<String>, history: &Vec<SaveItem>) -> (plan:
        SavePlan)
        requires
            forall|i: int| 0 <= i < history@.len() ==> item_fits(#[trigger] history@[i]),
        ensures
            saves(self@, clear_error, history@, plan),
            clear_error is None && (forall|i: int|
                0 <= i < history@.len() ==> can_be_stored(#[trigger] history@[i]))
                ==> plan.error is None && plan.rows@.len() == history@.len(),
    {
        if let Some(e) = clear_error {
            return SavePlan {
                rows: Vec::new(),
                error: Some(describe_failure("Failed to clear persisted history", e.as_str())),
            };
        }
        let mut rows: Vec<StoredRow> = Vec::new();
        let mut i: usize = 0;
        while i < history.len()
            invariant
                clear_error is None,
                i <= history@.len(),
                rows@.len() == i,
                forall|j: int| 0 <= j < history@.len() ==> item_fits(#[trigger] history@[j]),
                forall|j: int|
                    0 <= j < i ==> refusal(#[trigger] history@[j]) is None && row_holds(
                        self@,
                        history@[j],
                        rows@[j],
                    ),
            decreases history@.len() - i,
        {
            match self.prepare_row(&history[i]) {
                Ok(row) => {
                    rows.push(row);
                },
                Err(message) => {
                    return SavePlan { rows, error: Some(message) };
                },
            }
            i = i + 1;
        }
        SavePlan { rows, error: None }
    }

    /// The JSON that a stored payload stands for.
    pub fn item_json(&self, payload: &str) -> (r: Result<String, String>)
        ensures
            crate::payload::outcome_view(r) == row_json(self@, payload@),
    {
        if starts_with(payload, "enc:v1:") {
            decrypt_payload(&self.cipher, payload)
        } else {
            Ok(payload.to_owned())
        }
    }

    /// The items that `rows` hold: the JSON of every row in front of the first
    /// that cannot be read, and that row's error if there is one. `query_error` is
    /// why the rows could not be asked for, if they could not.
    pub fn load_history(&self, query_error: Option<String>, rows: &Vec<FetchedRow>) -> (outcome:
        LoadOutcome)
        ensures
            loads(self@, query_error, rows@, outcome),
    {
        if let Some(e) = query_error {
            return LoadOutcome {
                items: Vec::new(),
                error: Some(describe_failure("Failed to query persisted history", e.as_str())),
            };
        }
        let mut items: Vec<String> = Vec::new();
        let mut i: usize = 0;
        while i < rows.len()
            invariant
                query_error is None,
                i <= rows@.len(),
                items@.len() == i,
                forall|j: int|
                    0 <= j < i ==> fetched_json(self@, #[trigger] rows@[j]) == Ok::<
                        Seq<char>,
                        Seq<char>,
                    >(items@[j]@),
            decreases rows@.len() - i,
        {
            let json = match &rows[i] {
                FetchedRow::Unreadable(e) => Err(
                    describe_failure("Failed to read persisted row", e.as_str()),
                ),
                FetchedRow::NotText(e) => Err(
                    describe_failure("Failed to parse persisted row payload", e.as_str()),
                ),
                FetchedRow::Payload(payload) => self.item_json(payload.as_str()),
            };
            match json {
                Ok(text) => {
                    items.push(text);
                },
                Err(message) => {
                    return LoadOutcome { items, error: Some(message) };
                },
            }
            i = i + 1;
        }
        LoadOutcome { items, error: None }
    }
}

/// What was saved is what a load gives back, without an error: the JSON of every
/// item once, pinned items first, then the later ones, then those with the
/// greater numbers.
pub proof fn law_load_gives_back_saved(
    key: Seq<u8>,
    history: Seq<SaveItem>,
    plan: SavePlan,
    order: Seq<int>,
    fetched: Seq<FetchedRow>,
    outcome: LoadOutcome,
)
    requires
        saves(key, None, history, plan),
        plan.error is None,
        reads_table(plan.rows@, order, fetched),
        loads(key, None, fetched, outcome),
    ensures
        outcome.error is None,
        outcome.items@.len() == history.len(),
        is_arrangement(order, history.len()),
        forall|i: int|
            0 <= i < history.len() ==> (history[order[i]].json matches Ok(json) && (
            #[trigger] outcome.items@[i])@ == json@),
        forall|i: int, j: int|
            0 <= i < j < history.len() ==> !item_before(
                history[#[trigger] order[j]],
                history[#[trigger] order[i]],
            ),
{
    let rows = plan.rows@;
    assert forall|i: int| 0 <= i < history.len() implies (history[order[i]].json matches Ok(json)
        && fetched_json(key, #[trigger] fetched[i]) == Ok::<Seq<char>, Seq<char>>(json@)) by {
        assert(0 <= order[i] < history.len());
        assert(row_holds(key, history[order[i]], rows[order[i]]));
    }
    if outcome.error is Some {
        let at = outcome.items@.len() as int;
        assert(fetched_json(key, fetched[at]) is Ok);
    }
    assert forall|i: int| 0 <= i < history.len() implies (history[order[i]].json matches Ok(json)
        && (#[trigger] outcome.items@[i])@ == json@) by {
        assert(fetched_json(key, fetched[i]) is Ok);
    }
    assert forall|i: int, j: int| 0 <= i < j < history.len() implies !item_before(
        history[#[trigger] order[j]],
        history[#[trigger] order[i]],
    ) by {
        assert(row_holds(key, history[order[i]], rows[order[i]]));
        assert(row_holds(key, history[order[j]], rows[order[j]]));
        assert(!row_before(rows[order[j]], rows[order[i]]));
    }
}

/// Of two rows with different numbers exactly one stands in front of the other,
/// and what stands in front of a row stands in front of all that follow it. The
/// numbers are the table's key, so that reading it leaves no order open.
pub proof fn law_stored_order_is_total(a: StoredRow, b: StoredRow, c: StoredRow)
    ensures
        !row_before(a, a),
        a.item_id != b.item_id ==> row_before(a, b) != row_before(b, a),
        row_before(a, b) && row_before(b, c) ==> row_before(a, c),
{
}

/// A save succeeds whenever it can: if every item has its JSON, of no more than
/// 2^36 - 32 bytes in UTF-8, and a number and a time below 2^63, all items are
/// stored, in their order and with their columns, and there is no error.
pub proof fn law_everything_storable_is_saved(
    key: Seq<u8>,
    history: Seq<SaveItem>,
    plan: SavePlan,
)
    requires
        saves(key, None, history, plan),
        forall|i: int|
            0 <= i < history.len() ==> {
                let item = #[trigger] history[i];
                &&& item.json matches Ok(json) && vstd::utf8::encode_utf8(json@).len()
                    <= 68719476704
                &&& item.item_id <= 9223372036854775807
                &&& item.timestamp <= 9223372036854775807
            },
    ensures
        plan.error is None,
        plan.rows@.len() == history.len(),
        forall|i: int|
            0 <= i < history.len() ==> {
                let row = #[trigger] plan.rows@[i];
                &&& row.item_id == history[i].item_id
                &&& row.created_ts == history[i].timestamp
                &&& row.pinned == history[i].pinned
                &&& history[i].json matches Ok(json) && row_json(key, row.payload@) == Ok::<
                    Seq<char>,
                    Seq<char>,
                >(json@)
            },
{
    if plan.error is Some {
        let at = plan.rows@.len() as int;
        assert(refusal(history[at]) is None);
    }
    assert forall|i: int| 0 <= i < history.len() implies {
        let row = #[trigger] plan.rows@[i];
        &&& row.item_id == history[i].item_id
        &&& row.created_ts == history[i].timestamp
        &&& row.pinned == history[i].pinned
        &&& history[i].json matches Ok(json) && row_json(key, row.payload@) == Ok::<
            Seq<char>,
            Seq<char>,
        >(json@)
    } by {
        assert(row_holds(key, history[i], plan.rows@[i]));
    }
}

/// A save that fails, though the table could be emptied, has stored every item in
/// front of one that cannot be stored, and none behind it.
pub proof fn law_saving_stops_at_what_cannot_be_stored(
    key: Seq<u8>,
    history: Seq<SaveItem>,
    plan: SavePlan,
)
    requires
        saves(key, None, history, plan),
        plan.error is Some,
    ensures
        plan.rows@.len() < history.len(),
        !can_be_stored(history[plan.rows@.len() as int]),
        forall|i: int| 0 <= i < plan.rows@.len() ==> can_be_stored(#[trigger] history[i]),
{
    assert forall|i: int| 0 <= i < plan.rows@.len() implies can_be_stored(
        #[trigger] history[i],
    ) by {
        assert(refusal(history[i]) is None);
        assert(row_holds(key, history[i], plan.rows@[i]));
    }
}

/// A payload without the mark of an encrypted one is loaded as it stands, and one
/// with the mark is loaded as what it decrypts to, or not at all.
pub proof fn law_plain_rows_load_as_they_stand(key: Seq<u8>, payload: String, rest: Seq<char>)
    ensures
        (forall|tail: Seq<char>| payload@ != #[trigger] ("enc:v1:"@ + tail)) ==> fetched_json(
            key,
            FetchedRow::Payload(payload),
        ) == Ok::<Seq<char>, Seq<char>>(payload@),
        payload@ == "enc:v1:"@ + rest ==> fetched_json(key, FetchedRow::Payload(payload))
            == crate::payload::decrypted(key, payload@),
{
    crate::text::law_beginning(payload@, "enc:v1:"@, rest);
    if crate::text::occurs_at(payload@, "enc:v1:"@, 0) {
        let tail = payload@.skip("enc:v1:"@.len() as int);
        assert(payload@ == "enc:v1:"@ + tail);
    }
}

/// A load of rows that can all be read has no error and gives back as many items.
pub proof fn law_everything_readable_is_loaded(
    key: Seq<u8>,
    rows: Seq<FetchedRow>,
    outcome: LoadOutcome,
)
    requires
        loads(key, None, rows, outcome),
        forall|i: int| 0 <= i < rows.len() ==> fetched_json(key, #[trigger] rows[i]) is Ok,
    ensures
        outcome.error is None,
        outcome.items@.len() == rows.len(),
{
    if outcome.error is Some {
        assert(fetched_json(key, rows[outcome.items@.len() as int]) is Ok);
    }
}

/// Reading the table puts pinned items before unpinned ones, whatever else they
/// hold; among those the later before the earlier; and among those the greater
/// number before the lesser.
pub proof fn law_stored_order(a: StoredRow, b: StoredRow, c: SaveItem, d: SaveItem)
    ensures
        c.pinned && !d.pinned ==> item_before(c, d),
        c.pinned == d.pinned && c.timestamp > d.timestamp ==> item_before(c, d),
        c.pinned == d.pinned && c.timestamp == d.timestamp && c.item_id > d.item_id
            ==> item_before(c, d),
        a.pinned && !b.pinned ==> row_before(a, b),
        a.pinned == b.pinned && a.created_ts > b.created_ts ==> row_before(a, b),
        a.pinned == b.pinned && a.created_ts == b.created_ts && a.item_id > b.item_id
            ==> row_before(a, b),
{
}

/// Whether a payload is a text sealed under a key: the mark, a nonce of twelve bytes,
/// a colon, and what AES-GCM makes of the text under both.
pub open spec fn is_sealed_under(key: Seq<u8>, text: Seq<char>, payload: Seq<char>) -> bool {
    exists|nonce: Seq<u8>|
        nonce.len() == 12 && payload == "enc:v1:"@ + (#[trigger] crate::crypto::base64_text(nonce))
            + seq![':'] + crate::crypto::base64_text(
            crate::crypto::aes_sealed(key, nonce, vstd::utf8::encode_utf8(text)),
        )
}

/// Nothing is stored in the clear: whatever a save stores is sealed under the key.
pub proof fn law_nothing_is_stored_in_the_clear(
    key: Seq<u8>,
    clear_error: Option<String>,
    history: Seq<SaveItem>,
    plan: SavePlan,
    i: int,
)
    requires
        saves(key, clear_error, history, plan),
        0 <= i < plan.rows@.len(),
    ensures
        i < history.len(),
        history[i].json matches Ok(json) && is_sealed_under(key, json@, plan.rows@[i].payload@),
{
    assert(row_holds(key, history[i], plan.rows@[i]));
    let json = history[i].json->Ok_0@;
    let nonce = choose|nonce: Seq<u8>|
        nonce.len() == crate::crypto::NONCE_LEN && plan.rows@[i].payload@
            == #[trigger] crate::payload::sealed_payload(key, nonce, json);
    crate::payload::law_payload_shows_nonce_and_ciphertext(key, nonce, json);
}

/// If the table could not be emptied or could not be read, nothing is stored or
/// loaded, and the reason is reported.
pub proof fn law_failed_statement_ends_the_work(
    key: Seq<u8>,
    reason: String,
    history: Seq<SaveItem>,
    plan: SavePlan,
    rows: Seq<FetchedRow>,
    outcome: LoadOutcome,
)
    ensures
        saves(key, Some(reason), history, plan) ==> plan.rows@.len() == 0 && (plan.error matches
            Some(message) && message@ == "Failed to clear persisted history"@ + seq![':', ' ']
            + reason@),
        loads(key, Some(reason), rows, outcome) ==> outcome.items@.len() == 0 && (outcome.error
            matches Some(message) && message@ == "Failed to query persisted history"@ + seq![
            ':',
            ' ',
        ] + reason@),
{
    crate::text::law_failure_gives_its_reason("Failed to clear persisted history"@, reason@);
    crate::text::law_failure_gives_its_reason("Failed to query persisted history"@, reason@);
}

/// A load that fails, though the rows could be asked for, has given back every item
/// in front of a row that cannot be read, and none behind it.
pub proof fn law_loading_stops_at_what_cannot_be_read(
    key: Seq<u8>,
    rows: Seq<FetchedRow>,
    outcome: LoadOutcome,
)
    requires
        loads(key, None, rows, outcome),
        outcome.error is Some,
    ensures
        outcome.items@.len() < rows.len(),
        match rows[outcome.items@.len() as int] {
            FetchedRow::Payload(payload) => row_json(key, payload@) is Err,
            _ => true,
        },
        forall|i: int|
            0 <= i < outcome.items@.len() ==> ((#[trigger] rows[i]) matches FetchedRow::Payload(
                payload,
            ) && row_json(key, payload@) == Ok::<Seq<char>, Seq<char>>(outcome.items@[i]@)),
{
    assert forall|i: int| 0 <= i < outcome.items@.len() implies ((
    #[trigger] rows[i]) matches FetchedRow::Payload(payload) && row_json(key, payload@) == Ok::<
        Seq<char>,
        Seq<char>,
    >(outcome.items@[i]@)) by {
        assert(fetched_json(key, rows[i]) is Ok);
    }
}

/// A failure names what it is about and ends with its reason: the file that cannot be
/// opened, the item by its number, the value that is too great.
pub proof fn law_failures_name_their_subject(
    path: Seq<char>,
    what: Seq<char>,
    item_id: u64,
    reason: Seq<char>,
)
    ensures
        exists|front: Seq<char>|
            open_failure(path, reason) == #[trigger] (front + path + ": "@ + reason),
        exists|middle: Seq<char>, number: Seq<char>|
            item_failure(what, item_id, reason) == #[trigger] (what + middle + number + ": "@
                + reason) && crate::text::number_of(number) == item_id,
        exists|front: Seq<char>, number: Seq<char>, behind: Seq<char>|
            range_failure(item_id) == #[trigger] (front + number + behind)
                && crate::text::number_of(number) == item_id,
        exists|front: Seq<char>, middle: Seq<char>|
            sync_warning(what, reason) == #[trigger] (front + what + middle + reason),
{
    let number = crate::text::decimal(item_id as nat);
    crate::text::law_decimal_stands_for_number(item_id as nat);
    assert(open_failure(path, reason) == "Failed to open Stoolap database at "@ + path + ": "@
        + reason);
    assert(item_failure(what, item_id, reason) == what + " clipboard item "@ + number + ": "@
        + reason);
    assert(range_failure(item_id) == "Value "@ + number + " exceeds i64 range"@);
    assert(sync_warning(what, reason) == "Persistence "@ + what + " failed: "@ + reason);
}

/// Whether a message ends with a text.
pub open spec fn ends_with(message: Option<Seq<char>>, end: Seq<char>) -> bool {
    message matches Some(text) && text.len() >= end.len() && text.skip(text.len() - end.len())
        == end
}

/// Whether a message has a number in it.
pub open spec fn names_number(message: Option<Seq<char>>, number: int) -> bool {
    exists|front: Seq<char>, digits: Seq<char>, behind: Seq<char>|
        message == Some(#[trigger] (front + digits + behind)) && digits.len() > 0
            && crate::text::number_of(digits) == number
}

/// The reason why an item cannot be stored is told from what comes first: that it has
/// no JSON, that the JSON is too long, that its number is too great, that its time is.
pub proof fn law_refusal_tells_the_first_reason(item: SaveItem)
    ensures
        item.json matches Err(e) ==> ends_with(refusal(item), e@) && names_number(
            refusal(item),
            item.item_id as int,
        ),
        item.json matches Ok(json) && vstd::utf8::encode_utf8(json@).len() > 68719476704
            ==> ends_with(refusal(item), "Encryption failed: aead::Error"@) && names_number(
            refusal(item),
            item.item_id as int,
        ),
        (item.json matches Ok(json) && vstd::utf8::encode_utf8(json@).len() <= 68719476704)
            && item.item_id > 9223372036854775807 ==> names_number(
            refusal(item),
            item.item_id as int,
        ),
        (item.json matches Ok(json) && vstd::utf8::encode_utf8(json@).len() <= 68719476704)
            && item.item_id <= 9223372036854775807 && item.timestamp > 9223372036854775807
            ==> names_number(refusal(item), item.timestamp as int),
        refusal(item) is None <==> can_be_stored(item),
{
    lemma_item_failure("Failed to encrypt"@, item.item_id, "Encryption failed: aead::Error"@);
    if let Err(e) = item.json {
        lemma_item_failure("Failed to serialize"@, item.item_id, e@);
    }
    let number = crate::text::decimal(item.item_id as nat);
    let time = crate::text::decimal(item.timestamp as nat);
    crate::text::law_decimal_stands_for_number(item.item_id as nat);
    crate::text::law_decimal_stands_for_number(item.timestamp as nat);
    assert(range_failure(item.item_id) == "Value "@ + number + " exceeds i64 range"@);
    assert(range_failure(item.timestamp) == "Value "@ + time + " exceeds i64 range"@);
}

proof fn lemma_item_failure(what: Seq<char>, item_id: u64, reason: Seq<char>)
    ensures
        ends_with(Some(item_failure(what, item_id, reason)), reason),
        names_number(Some(item_failure(what, item_id, reason)), item_id as int),
{
    let message = item_failure(what, item_id, reason);
    let number = crate::text::decimal(item_id as nat);
    crate::text::law_decimal_stands_for_number(item_id as nat);
    assert(message.skip(message.len() - reason.len()) =~= reason);
    assert(message =~= (what + " clipboard item "@) + number + (": "@ + reason));
}

} // verus!
