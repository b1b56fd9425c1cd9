//! The account store and switch engine.
//!
//! The store owns the ordered account index (newest first) and a model of the
//! backup directory tree: one entry per storage key, holding the captured
//! credential files. The live credential files are modelled the same way. All
//! operations keep the store well formed: unique ids, unique storage keys, no
//! two records sharing a non-empty fingerprint, and every record's storage key
//! backed by an existing backup entry.

use vstd::prelude::*;
use crate::fingerprint::{compute_fingerprint, content_view, fingerprint_of};
use crate::guard::game_guard_running;

verus! {

/// The failures an operation can surface.
#[derive(Clone, Copy, Debug, PartialEq, Eq, Structural)]
pub enum AccountError {
    /// The game process is running; mutating the live files is unsafe.
    GameRunning,
    /// The live session is already saved under some record.
    DuplicateAccount,
    /// The storage key has no backup entry: the index record is stale.
    BackupMissing,
    /// No live data directory could be resolved.
    NotFound,
    /// A read, write, copy or remove failed.
    IoFailure,
    /// The persisted index document is malformed.
    ParseFailure,
}

impl AccountError {
    /// A human-readable description, suitable for direct display.
    pub fn message(&self) -> String {
        match self {
            AccountError::GameRunning => "the game is running; quit it before changing accounts"
                .to_owned(),
            AccountError::DuplicateAccount => "this account is already saved".to_owned(),
            AccountError::BackupMissing => "the backup folder is missing; delete this record"
                .to_owned(),
            AccountError::NotFound => "no login data directory was found".to_owned(),
            AccountError::IoFailure => "a file operation failed".to_owned(),
            AccountError::ParseFailure => "the account index file is malformed".to_owned(),
        }
    }
}

/// One saved game session.
#[derive(Debug)]
pub struct AccountInfo {
    /// Opaque public identifier, assigned at capture, never reused.
    pub id: String,
    /// Name of the backup subdirectory holding this account's files.
    pub folder_name: String,
    /// User-editable label.
    pub display_name: String,
    /// Fingerprint of the primary credential file at capture time; empty only
    /// if the file was absent then.
    pub finger_print: String,
    /// Capture timestamp, local time, second precision.
    pub last_backup_time: String,
}

#[verifier::ext_equal]
pub ghost struct AccountView {
    pub id: Seq<char>,
    pub folder_name: Seq<char>,
    pub display_name: Seq<char>,
    pub finger_print: Seq<char>,
    pub last_backup_time: Seq<char>,
}

impl View for AccountInfo {
    type V = AccountView;

    open spec fn view(&self) -> AccountView {
        AccountView {
            id: self.id@,
            folder_name: self.folder_name@,
            display_name: self.display_name@,
            finger_print: self.finger_print@,
            last_backup_time: self.last_backup_time@,
        }
    }
}

impl AccountInfo {
    pub fn copy_of(&self) -> (r: AccountInfo)
        ensures
            r@ == self@,
    {
        AccountInfo {
            id: self.id.clone(),
            folder_name: self.folder_name.clone(),
            display_name: self.display_name.clone(),
            finger_print: self.finger_print.clone(),
            last_backup_time: self.last_backup_time.clone(),
        }
    }
}

/// The contents of the two fixed credential files; `None` stands for an
/// absent file.
pub struct CredFiles {
    /// The primary credential file, the one that is fingerprinted.
    pub primary: Option<Vec<u8>>,
    /// Its companion checksum file.
    pub companion: Option<Vec<u8>>,
}

#[verifier::ext_equal]
pub ghost struct CredView {
    pub primary: Option<Seq<u8>>,
    pub companion: Option<Seq<u8>>,
}

impl View for CredFiles {
    type V = CredView;

    open spec fn view(&self) -> CredView {
        CredView {
            primary: content_view(self.primary),
            companion: content_view(self.companion),
        }
    }
}

fn clone_bytes(v: &Vec<u8>) -> (r: Vec<u8>)
    ensures
        r@ == v@,
{
    let mut r: Vec<u8> = Vec::new();
    let mut i: usize = 0;
    while i < v.len()
        invariant
            i <= v.len(),
            r@ == v@.subrange(0, i as int),
        decreases v.len() - i,
    {
        r.push(v[i]);
        proof {
            assert(r@ =~= v@.subrange(0, i as int + 1));
        }
        i = i + 1;
    }
    proof {
        assert(v@.subrange(0, v@.len() as int) =~= v@);
    }
    r
}

fn clone_content(c: &Option<Vec<u8>>) -> (r: Option<Vec<u8>>)
    ensures
        content_view(r) == content_view(*c),
{
    match c {
        Option::None => Option::None,
        Option::Some(v) => Option::Some(clone_bytes(v)),
    }
}

impl CredFiles {
    pub fn duplicate(&self) -> (r: CredFiles)
        ensures
            r@ == self@,
    {
        CredFiles { primary: clone_content(&self.primary), companion: clone_content(&self.companion) }
    }
}

/// One backup subdirectory: its storage key and the captured files.
pub struct BackupEntry {
    pub folder_name: String,
    pub files: CredFiles,
}

#[verifier::ext_equal]
pub ghost struct BackupEntryV {
    pub folder_name: Seq<char>,
    pub files: CredView,
}

impl View for BackupEntry {
    type V = BackupEntryV;

    open spec fn view(&self) -> BackupEntryV {
        BackupEntryV { folder_name: self.folder_name@, files: self.files@ }
    }
}

/// Some backup entry carries the given storage key.
pub open spec fn has_backup(bks: Seq<BackupEntryV>, key: Seq<char>) -> bool {
    exists|i: int| 0 <= i < bks.len() && bks[i].folder_name == key
}

/// The index of the backup entry with the given storage key (well defined when
/// keys are unique and the key is present).
pub open spec fn backup_index(bks: Seq<BackupEntryV>, key: Seq<char>) -> int {
    choose|i: int| 0 <= i < bks.len() && bks[i].folder_name == key
}

/// The files stored under the given storage key.
pub open spec fn backup_files(bks: Seq<BackupEntryV>, key: Seq<char>) -> CredView {
    bks[backup_index(bks, key)].files
}

/// Some record carries the given id.
pub open spec fn has_account(accs: Seq<AccountView>, id: Seq<char>) -> bool {
    exists|i: int| 0 <= i < accs.len() && accs[i].id == id
}

/// The index of the record with the given id (well defined when ids are
/// unique and the id is present).
pub open spec fn account_index(accs: Seq<AccountView>, id: Seq<char>) -> int {
    choose|i: int| 0 <= i < accs.len() && accs[i].id == id
}

/// A non-empty fingerprint already taken by some record: the live session was
/// captured before.
pub open spec fn dup_fingerprint(accs: Seq<AccountView>, fp: Seq<char>) -> bool {
    fp.len() > 0 && exists|i: int| 0 <= i < accs.len() && accs[i].finger_print == fp
}

/// The account store: the ordered index, newest first, and the backup store.
pub struct AccountStore {
    pub accounts: Vec<AccountInfo>,
    pub backups: Vec<BackupEntry>,
}

impl AccountStore {
    /// The index as a sequence of record views, newest first.
    pub open spec fn accs(&self) -> Seq<AccountView> {
        Seq::new(self.accounts@.len(), |i: int| self.accounts@[i]@)
    }

    /// The backup store as a sequence of entry views.
    pub open spec fn bks(&self) -> Seq<BackupEntryV> {
        Seq::new(self.backups@.len(), |i: int| self.backups@[i]@)
    }

    /// Well-formedness: unique ids, unique storage keys in the index and in
    /// the backup store, no two records sharing a non-empty fingerprint, and
    /// every record's storage key backed by a backup entry.
    pub open spec fn wf(&self) -> bool {
        &&& forall|i: int, j: int|
            #![trigger self.accs()[i], self.accs()[j]]
            0 <= i < j < self.accs().len() ==> self.accs()[i].id != self.accs()[j].id
        &&& forall|i: int, j: int|
            #![trigger self.accs()[i], self.accs()[j]]
            0 <= i < j < self.accs().len() ==> self.accs()[i].folder_name
                != self.accs()[j].folder_name
        &&& forall|i: int, j: int|
            #![trigger self.accs()[i], self.accs()[j]]
            0 <= i < j < self.accs().len() ==> !(self.accs()[i].finger_print.len() > 0
                && self.accs()[i].finger_print == self.accs()[j].finger_print)
        &&& forall|i: int|
            0 <= i < self.accs().len() ==> has_backup(self.bks(), #[trigger] self.accs()[i].folder_name)
        &&& forall|i: int, j: int|
            #![trigger self.bks()[i], self.bks()[j]]
            0 <= i < j < self.bks().len() ==> self.bks()[i].folder_name != self.bks()[j].folder_name
    }

    /// A fresh store: no accounts, no backups.
    pub fn new() -> (s: AccountStore)
        ensures
            s.wf(),
            s.accs() == Seq::<AccountView>::empty(),
            s.bks() == Seq::<BackupEntryV>::empty(),
    {
        let s = AccountStore { accounts: Vec::new(), backups: Vec::new() };
        proof {
            assert(s.accs() =~= Seq::<AccountView>::empty());
            assert(s.bks() =~= Seq::<BackupEntryV>::empty());
        }
        s
    }

    /// The persisted, ordered index.
    pub fn list_accounts(&self) -> (r: &Vec<AccountInfo>)
        ensures
            r@ == self.accounts@,
    {
        &self.accounts
    }

    fn find_backup_index(&self, key: &String) -> (r: Option<usize>)
        ensures
            match r {
                Option::Some(i) => i < self.bks().len() && self.bks()[i as int].folder_name
                    == key@,
                Option::None => !has_backup(self.bks(), key@),
            },
    {
        let mut i: usize = 0;
        while i < self.backups.len()
            invariant
                i <= self.backups.len(),
                forall|k: int| 0 <= k < i ==> self.bks()[k].folder_name != key@,
        decreases self.backups.len() - i,
        {
            if self.backups[i].folder_name == *key {
                return Some(i);
            }
            i = i + 1;
        }
        None
    }

    /// Whether the backup store holds an entry for the given storage key.
    pub fn has_backup_key(&self, key: &String) -> (r: bool)
        ensures
            r == has_backup(self.bks(), key@),
    {
        match self.find_backup_index(key) {
            Option::Some(_) => true,
            Option::None => false,
        }
    }

    fn find_account_index(&self, id: &String) -> (r: Option<usize>)
        ensures
            match r {
                Option::Some(i) => i < self.accs().len() && self.accs()[i as int].id == id@,
                Option::None => !has_account(self.accs(), id@),
            },
    {
        let mut i: usize = 0;
        while i < self.accounts.len()
            invariant
                i <= self.accounts.len(),
                forall|k: int| 0 <= k < i ==> self.accs()[k].id != id@,
        decreases self.accounts.len() - i,
        {
            if self.accounts[i].id == *id {
                return Some(i);
            }
            i = i + 1;
        }
        None
    }

    /// Whether some record carries the given id.
    pub fn has_account_id(&self, id: &String) -> (r: bool)
        ensures
            r == has_account(self.accs(), id@),
    {
        match self.find_account_index(id) {
            Option::Some(_) => true,
            Option::None => false,
        }
    }

    fn fingerprint_taken(&self, fp: &String) -> (r: bool)
        ensures
            r == exists|i: int| 0 <= i < self.accs().len() && self.accs()[i].finger_print == fp@,
    {
        let mut i: usize = 0;
        while i < self.accounts.len()
            invariant
                i <= self.accounts.len(),
                forall|k: int| 0 <= k < i ==> self.accs()[k].finger_print != fp@,
        decreases self.accounts.len() - i,
        {
            if self.accounts[i].finger_print == *fp {
                proof {
                    assert(self.accs()[i as int].finger_print == fp@);
                }
                return true;
            }
            i = i + 1;
        }
        false
    }

    /// Captures the live session as a new account.
    ///
    /// The caller supplies the guard's verdict and the freshly allocated id,
    /// storage key and timestamp. When the game runs, nothing changes and
    /// `GameRunning` comes back. When the live session's non-empty fingerprint
    /// is already recorded, nothing changes (the backup entry made during the
    /// call is rolled back) and `DuplicateAccount` comes back. Otherwise the
    /// new record is prepended to the index (prior records shift down one
    /// place, order kept) and the live files are stored under the new key.
    pub fn backup_account(
        &mut self,
        live: &CredFiles,
        note: String,
        game_running: bool,
        id: String,
        folder_name: String,
        timestamp: String,
    ) -> (r: Result<AccountInfo, AccountError>)
        requires
            old(self).wf(),
            !has_account(old(self).accs(), id@),
            !has_backup(old(self).bks(), folder_name@),
        ensures
            final(self).wf(),
            (r matches Err(AccountError::GameRunning)) <==> game_running,
            (r matches Err(AccountError::DuplicateAccount)) <==> (!game_running
                && dup_fingerprint(old(self).accs(), fingerprint_of(live@.primary))),
            r is Err ==> final(self).accs() == old(self).accs() && final(self).bks() == old(
                self,
            ).bks(),
            r is Ok <==> (!game_running && !dup_fingerprint(
                old(self).accs(),
                fingerprint_of(live@.primary),
            )),
            r matches Ok(rec) ==> {
                &&& rec@.id == id@
                &&& rec@.folder_name == folder_name@
                &&& rec@.display_name == note@
                &&& rec@.finger_print == fingerprint_of(live@.primary)
                &&& rec@.last_backup_time == timestamp@
                &&& final(self).accs() == old(self).accs().insert(0, rec@)
                &&& final(self).accs().len() == old(self).accs().len() + 1
                &&& final(self).accs()[0] == rec@
                &&& forall|i: int|
                    0 <= i < old(self).accs().len() ==> final(self).accs()[i + 1] == old(
                        self,
                    ).accs()[i]
                &&& final(self).bks() == old(self).bks().push(
                    BackupEntryV { folder_name: folder_name@, files: live@ },
                )
            },
    {
        if game_running {
            return Err(AccountError::GameRunning);
        }
        let fp = compute_fingerprint(&live.primary);
        let dup = match &live.primary {
            Option::None => false,
            Option::Some(_) => self.fingerprint_taken(&fp),
        };
        proof {
            assert(dup == dup_fingerprint(self.accs(), fingerprint_of(live@.primary)));
        }
        if dup {
            return Err(AccountError::DuplicateAccount);
        }
        let folder_name_2 = folder_name.clone();
        let rec = AccountInfo {
            id,
            folder_name,
            display_name: note,
            finger_print: fp,
            last_backup_time: timestamp,
        };
        let returned = rec.copy_of();
        let ghost grec = rec;
        self.backups.push(BackupEntry { folder_name: folder_name_2, files: live.duplicate() });
        self.accounts.insert(0, rec);
        proof {
            let ghost oa = old(self).accs();
            let ghost ob = old(self).bks();
            old(self).accounts@.insert_ensures(0, grec);
            oa.insert_ensures(0, returned@);
            assert(self.bks() =~= ob.push(
                BackupEntryV { folder_name: returned@.folder_name, files: live@ },
            ));
            assert(self.accs() =~= oa.insert(0, returned@));
            assert forall|i: int| 0 <= i < self.accs().len() implies has_backup(
                self.bks(),
                self.accs()[i].folder_name,
            ) by {
                if i == 0 {
                    assert(self.bks()[ob.len() as int].folder_name == returned@.folder_name);
                } else {
                    assert(self.accs()[i] == oa[i - 1]);
                    assert(has_backup(ob, oa[i - 1].folder_name));
                    let w = choose|k: int|
                        0 <= k < ob.len() && ob[k].folder_name == oa[i - 1].folder_name;
                    assert(self.bks()[w].folder_name == oa[i - 1].folder_name);
                }
            }
        }
        Ok(returned)
    }

    /// Restores the files saved under `folder_name` into the live directory.
    ///
    /// When the game runs, the live files are untouched and `GameRunning`
    /// comes back; when the storage key has no backup entry, the live files
    /// are untouched and `BackupMissing` comes back (the index record is
    /// stale). Otherwise the live files end up exactly as captured: present
    /// files restored, files absent from the backup absent afterwards. The
    /// index never changes; the previously live session is not preserved.
    pub fn switch_account(
        &self,
        live: &mut CredFiles,
        folder_name: &String,
        game_running: bool,
    ) -> (r: Result<(), AccountError>)
        requires
            self.wf(),
        ensures
            (r matches Err(AccountError::GameRunning)) <==> game_running,
            (r matches Err(AccountError::BackupMissing)) <==> (!game_running && !has_backup(
                self.bks(),
                folder_name@,
            )),
            r is Err ==> final(live)@ == old(live)@,
            r is Ok <==> (!game_running && has_backup(self.bks(), folder_name@)),
            r is Ok ==> final(live)@ == backup_files(self.bks(), folder_name@),
    {
        if game_running {
            return Err(AccountError::GameRunning);
        }
        match self.find_backup_index(folder_name) {
            Option::None => Err(AccountError::BackupMissing),
            Option::Some(i) => {
                *live = self.backups[i].files.duplicate();
                proof {
                    assert(self.bks()[i as int].folder_name == folder_name@);
                    assert(has_backup(self.bks(), folder_name@));
                    let w = backup_index(self.bks(), folder_name@);
                    assert(0 <= w < self.bks().len() && self.bks()[w].folder_name == folder_name@);
                    assert(w == i as int);
                }
                Ok(())
            },
        }
    }

    /// Deletes the record with the given id, with its backup entry. A missing
    /// id is a success that changes nothing (idempotent).
    pub fn delete_account(&mut self, id: &String) -> (r: Result<(), AccountError>)
        requires
            old(self).wf(),
        ensures
            final(self).wf(),
            r is Ok,
            !has_account(old(self).accs(), id@) ==> final(self).accs() == old(self).accs()
                && final(self).bks() == old(self).bks(),
            has_account(old(self).accs(), id@) ==> {
                let k = account_index(old(self).accs(), id@);
                let b = backup_index(old(self).bks(), old(self).accs()[k].folder_name);
                &&& final(self).accs() == old(self).accs().remove(k)
                &&& final(self).bks() == old(self).bks().remove(b)
            },
    {
        let k = match self.find_account_index(id) {
            Option::None => {
                return Ok(());
            },
            Option::Some(k) => k,
        };
        proof {
            assert(self.accs()[k as int].id == id@);
            assert(has_account(self.accs(), id@));
            let ka = account_index(self.accs(), id@);
            assert(0 <= ka < self.accs().len() && self.accs()[ka].id == id@);
            assert(ka == k as int);
        }
        let b = match self.find_backup_index(&self.accounts[k].folder_name) {
            Option::None => {
                proof {
                    assert(has_backup(self.bks(), self.accs()[k as int].folder_name));
                }
                return Ok(());  // unreachable: well-formedness backs every record
            },
            Option::Some(b) => b,
        };
        proof {
            assert(has_backup(self.bks(), self.accs()[k as int].folder_name));
            let wb = backup_index(self.bks(), self.accs()[k as int].folder_name);
            assert(0 <= wb < self.bks().len()
                && self.bks()[wb].folder_name == self.accs()[k as int].folder_name);
            assert(wb == b as int);
        }
        let ghost oa = self.accs();
        let ghost ob = self.bks();
        let ghost orecs = self.accounts@;
        let ghost obents = self.backups@;
        self.backups.remove(b);
        self.accounts.remove(k);
        proof {
            orecs.remove_ensures(k as int);
            obents.remove_ensures(b as int);
            oa.remove_ensures(k as int);
            ob.remove_ensures(b as int);
            assert(self.accs() =~= oa.remove(k as int));
            assert(self.bks() =~= ob.remove(b as int));
            let na = self.accs();
            let nb = self.bks();
            assert forall|i: int| 0 <= i < na.len() implies has_backup(
                nb,
                na[i].folder_name,
            ) by {
                let io: int = if i < k as int {
                    i
                } else {
                    i + 1
                };
                assert(na[i] == oa[io]);
                assert(has_backup(ob, oa[io].folder_name));
                let w = choose|x: int| 0 <= x < ob.len() && ob[x].folder_name == oa[io].folder_name;
                assert(w != b as int);
                let wn: int = if w < b as int {
                    w
                } else {
                    w - 1
                };
                assert(nb[wn].folder_name == oa[io].folder_name);
            }
        }
        Ok(())
    }

    /// Overwrites the label of the record with the given id and keeps all its
    /// other fields and every other record. A missing id is a success that
    /// changes nothing (idempotent).
    pub fn rename_account(&mut self, id: &String, new_name: String) -> (r: Result<
        (),
        AccountError,
    >)
        requires
            old(self).wf(),
        ensures
            final(self).wf(),
            r is Ok,
            final(self).bks() == old(self).bks(),
            !has_account(old(self).accs(), id@) ==> final(self).accs() == old(self).accs(),
            has_account(old(self).accs(), id@) ==> {
                let k = account_index(old(self).accs(), id@);
                final(self).accs() == old(self).accs().update(
                    k,
                    AccountView { display_name: new_name@, ..old(self).accs()[k] },
                )
            },
    {
        let k = match self.find_account_index(id) {
            Option::None => {
                return Ok(());
            },
            Option::Some(k) => k,
        };
        proof {
            assert(self.accs()[k as int].id == id@);
            assert(has_account(self.accs(), id@));
            let ka = account_index(self.accs(), id@);
            assert(0 <= ka < self.accs().len() && self.accs()[ka].id == id@);
            assert(ka == k as int);
        }
        let ghost oa = self.accs();
        let ghost ob = self.bks();
        let ghost orecs = self.accounts@;
        let old_rec = self.accounts.remove(k);
        let new_rec = AccountInfo {
            id: old_rec.id,
            folder_name: old_rec.folder_name,
            display_name: new_name,
            finger_print: old_rec.finger_print,
            last_backup_time: old_rec.last_backup_time,
        };
        let ghost gnew = new_rec;
        self.accounts.insert(k, new_rec);
        proof {
            orecs.remove_ensures(k as int);
            orecs.remove(k as int).insert_ensures(k as int, gnew);
            oa.remove_ensures(k as int);
            oa.remove(k as int).insert_ensures(k as int, gnew@);
            assert(self.bks() =~= ob);
            assert(self.accs() =~= oa.update(
                k as int,
                AccountView { display_name: new_name@, ..oa[k as int] },
            ));
        }
        Ok(())
    }
}

/// Relies on uuid::Uuid::new_v4 with the simple formatter: a freshly drawn
/// random identifier rendered as 32 hexadecimal characters.
#[verifier::external_body]
fn uuid_simple() -> (r: String)
    ensures
        r@.len() == 32,
{
    uuid::Uuid::new_v4().simple().to_string()
}

/// Relies on uuid::Uuid::new_v4 with the hyphenated formatter: a freshly
/// drawn random identifier rendered as 36 characters.
#[verifier::external_body]
fn uuid_hyphenated() -> (r: String)
    ensures
        r@.len() == 36,
{
    uuid::Uuid::new_v4().to_string()
}

/// Relies on chrono::Local::now: the current local time, rendered to second
/// precision. The value depends on the clock and the time zone; nothing is
/// promised of it.
#[verifier::external_body]
fn now_timestamp() -> String {
    chrono::Local::now().format("%Y-%m-%d %H:%M:%S").to_string()
}

impl AccountStore {
    /// Draws a random storage key and hands it back only when no backup entry
    /// carries it yet. Gives up after a few collisions.
    pub fn fresh_folder_key(&self) -> (r: Option<String>)
        ensures
            r matches Some(k) ==> !has_backup(self.bks(), k@) && k@.len() == 32,
    {
        let mut tries: usize = 0;
        while tries < 8
            invariant
                tries <= 8,
            decreases 8 - tries,
        {
            let cand = uuid_simple();
            if !self.has_backup_key(&cand) {
                return Some(cand);
            }
            tries = tries + 1;
        }
        None
    }

    /// Draws a random account id and hands it back only when no record
    /// carries it yet. Gives up after a few collisions.
    pub fn fresh_account_id(&self) -> (r: Option<String>)
        ensures
            r matches Some(k) ==> !has_account(self.accs(), k@) && k@.len() == 36,
    {
        let mut tries: usize = 0;
        while tries < 8
            invariant
                tries <= 8,
            decreases 8 - tries,
        {
            let cand = uuid_hyphenated();
            if !self.has_account_id(&cand) {
                return Some(cand);
            }
            tries = tries + 1;
        }
        None
    }

    /// Captures the live session now: scans the process table, draws a fresh
    /// id and storage key, stamps the current time, and runs the capture.
    /// Whatever the scan and the draws returned: on any error the store is
    /// unchanged, a duplicate is reported only when the live fingerprint is
    /// truly taken, and a success prepends exactly one new record backed by a
    /// new backup entry holding the live files.
    pub fn backup_account_now(&mut self, live: &CredFiles, note: String) -> (r: Result<
        AccountInfo,
        AccountError,
    >)
        requires
            old(self).wf(),
        ensures
            final(self).wf(),
            r is Err ==> final(self).accs() == old(self).accs() && final(self).bks() == old(
                self,
            ).bks(),
            r matches Err(e) ==> (e == AccountError::GameRunning || e
                == AccountError::DuplicateAccount || e == AccountError::IoFailure),
            r matches Err(AccountError::DuplicateAccount) ==> dup_fingerprint(
                old(self).accs(),
                fingerprint_of(live@.primary),
            ),
            r is Ok ==> !dup_fingerprint(old(self).accs(), fingerprint_of(live@.primary)),
            r matches Ok(rec) ==> {
                &&& rec@.display_name == note@
                &&& rec@.finger_print == fingerprint_of(live@.primary)
                &&& !has_account(old(self).accs(), rec@.id)
                &&& !has_backup(old(self).bks(), rec@.folder_name)
                &&& rec@.id.len() == 36
                &&& rec@.folder_name.len() == 32
                &&& final(self).accs() == old(self).accs().insert(0, rec@)
                &&& final(self).accs().len() == old(self).accs().len() + 1
                &&& final(self).accs()[0] == rec@
                &&& forall|i: int|
                    0 <= i < old(self).accs().len() ==> final(self).accs()[i + 1] == old(
                        self,
                    ).accs()[i]
                &&& final(self).bks() == old(self).bks().push(
                    BackupEntryV { folder_name: rec@.folder_name, files: live@ },
                )
            },
    {
        let running = game_guard_running();
        let folder_name = match self.fresh_folder_key() {
            Option::Some(k) => k,
            Option::None => {
                return Err(AccountError::IoFailure);
            },
        };
        let id = match self.fresh_account_id() {
            Option::Some(k) => k,
            Option::None => {
                return Err(AccountError::IoFailure);
            },
        };
        let timestamp = now_timestamp();
        self.backup_account(live, note, running, id, folder_name, timestamp)
    }

    /// Switches the live session now: scans the process table and, unless the
    /// game runs or the backup entry is missing, restores the files saved
    /// under `folder_name` into the live files.
    pub fn switch_account_now(&self, live: &mut CredFiles, folder_name: &String) -> (r: Result<
        (),
        AccountError,
    >)
        requires
            self.wf(),
        ensures
            r matches Err(e) ==> (e == AccountError::GameRunning || e
                == AccountError::BackupMissing) && final(live)@ == old(live)@,
            r matches Err(AccountError::BackupMissing) ==> !has_backup(self.bks(), folder_name@),
            r is Ok ==> has_backup(self.bks(), folder_name@) && final(live)@ == backup_files(
                self.bks(),
                folder_name@,
            ),
    {
        let running = game_guard_running();
        self.switch_account(live, folder_name, running)
    }
}

/// The law of the index: in a well-formed store no two records share a
/// non-empty fingerprint, so a live session can be saved at most once.
pub proof fn lemma_no_shared_fingerprint(s: &AccountStore)
    requires
        s.wf(),
    ensures
        forall|i: int, j: int|
            #![trigger s.accs()[i], s.accs()[j]]
            0 <= i < j < s.accs().len() ==> !(s.accs()[i].finger_print.len() > 0
                && s.accs()[i].finger_print == s.accs()[j].finger_print),
{
}

/// Switch round-trip: capture account A under a fresh storage key, then
/// capture anything else under a different key; switching back to A's key
/// finds A's backup and restores exactly the files captured for A, so the
/// live fingerprint afterwards is A's recorded fingerprint.
pub proof fn lemma_switch_round_trip(bks0: Seq<BackupEntryV>, a: BackupEntryV, b: BackupEntryV)
    requires
        !has_backup(bks0, a.folder_name),
        b.folder_name != a.folder_name,
    ensures
        has_backup(bks0.push(a).push(b), a.folder_name),
        backup_files(bks0.push(a).push(b), a.folder_name) == a.files,
        fingerprint_of(backup_files(bks0.push(a).push(b), a.folder_name).primary)
            == fingerprint_of(a.files.primary),
{
    let s = bks0.push(a).push(b);
    assert(s[bks0.len() as int] == a);
    assert(has_backup(s, a.folder_name));
    let i = backup_index(s, a.folder_name);
    assert(0 <= i < s.len() && s[i].folder_name == a.folder_name);
    if i < bks0.len() {
        assert(s[i] == bks0[i]);
        assert(false);
    }
    if i == s.len() - 1 {
        assert(s[i] == b);
        assert(false);
    }
    assert(s[i] == a);
}

} // verus!
