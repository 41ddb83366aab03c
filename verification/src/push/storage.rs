//! Push registration storage: the record shape and the storage interface.
//! The shipped store is skeletal on purpose; embedders bring their own.

use vstd::prelude::*;
use crate::push::error::ErrorKind;
use crate::strmap::StringMap;

verus! {

/// A channel is named by its id.
pub type ChannelID = String;

/// One push registration.
#[derive(Debug)]
pub struct PushRecord {
    /// Endpoint provided by the push server.
    pub endpoint: String,
    /// Designation label provided by the subscribing service.
    pub designator: String,
    /// Origin host attributes.
    pub origin_attributes: StringMap<String>,
    /// Number of pushes seen for this record.
    pub push_count: u8,
    /// When the last push arrived.
    pub last_push: u64,
    /// The serialized private key of this registration.
    pub key: Vec<u8>,
    /// Whether this is a privileged system record.
    pub system_record: bool,
    /// VAPID public key restricting subscription updates.
    pub app_server_key: Option<String>,
    /// The most recent message ids from the server.
    pub recent_message_ids: Vec<String>,
    /// When this subscription was created.
    pub ctime: u64,
    /// Max quota count for the subscription.
    pub quota: u8,
    /// On a bridged connection, the native OS push id.
    pub native_id: Option<String>,
}

/// Relies on std::time::SystemTime: seconds since the Unix epoch, by the
/// system clock; zero if the clock reads before the epoch.
#[verifier::external_body]
pub fn now_u64() -> (r: u64) {
    match std::time::SystemTime::now().duration_since(std::time::UNIX_EPOCH) {
        Ok(d) => d.as_secs(),
        Err(_) => 0,
    }
}

impl PushRecord {
    /// Count one more push and stamp the time.
    pub(crate) fn increment(&mut self) -> (r: Result<PushRecord, ErrorKind>)
        requires
            old(self).push_count < 255,
        ensures
            final(self).push_count == old(self).push_count + 1,
            final(self).endpoint == old(self).endpoint,
            final(self).designator == old(self).designator,
            final(self).key@ == old(self).key@,
            r is Ok,
    {
        self.push_count = self.push_count + 1;
        self.last_push = now_u64();
        Ok(self.duplicate())
    }

    /// A copy with equal fields.
    pub fn duplicate(&self) -> (r: PushRecord)
        ensures
            r.endpoint == self.endpoint,
            r.designator == self.designator,
            r.origin_attributes@ == self.origin_attributes@,
            r.push_count == self.push_count,
            r.last_push == self.last_push,
            r.key@ == self.key@,
            r.system_record == self.system_record,
            r.ctime == self.ctime,
            r.quota == self.quota,
    {
        PushRecord {
            endpoint: self.endpoint.clone(),
            designator: self.designator.clone(),
            origin_attributes: self.origin_attributes.duplicate(),
            push_count: self.push_count,
            last_push: self.last_push,
            key: clone_bytes(&self.key),
            system_record: self.system_record,
            app_server_key: (match &self.app_server_key {
                Some(k) => Some(k.clone()),
                None => None,
            }),
            recent_message_ids: clone_strings(&self.recent_message_ids),
            ctime: self.ctime,
            quota: self.quota,
            native_id: (match &self.native_id {
                Some(n) => Some(n.clone()),
                None => None,
            }),
        }
    }
}

/// A copy of a byte vector.
fn clone_bytes(v: &Vec<u8>) -> (r: Vec<u8>)
    ensures
        r@ == v@,
{
    let n = v.len();
    let mut out: Vec<u8> = Vec::new();
    let mut i: usize = 0;
    while i < n
        invariant
            i <= n,
            n == v@.len(),
            out@ == v@.subrange(0, i as int),
        decreases n - i,
    {
        out.push(v[i]);
        proof {
            assert(out@ =~= v@.subrange(0, i + 1 as int));
        }
        i = i + 1;
    }
    proof {
        assert(out@ =~= v@);
    }
    out
}

/// A copy of a string vector, equal element views.
fn clone_strings(v: &Vec<String>) -> (r: Vec<String>)
    ensures
        r@.len() == v@.len(),
        forall|i: int| 0 <= i < v@.len() ==> r@[i] == v@[i],
{
    let n = v.len();
    let mut out: Vec<String> = Vec::new();
    let mut i: usize = 0;
    while i < n
        invariant
            i <= n,
            n == v@.len(),
            out@.len() == i,
            forall|t: int| 0 <= t < i ==> out@[t] == v@[t],
        decreases n - i,
    {
        out.push(v[i].clone());
        i = i + 1;
    }
    out
}

/// How push registrations are stored. Embedders implement this over their
/// own storage engine; the shipped `Store` is a stub.
pub trait Storage {
    /// A fresh record from subscription info: endpoint, keys and attributes.
    fn create_record(
        uaid: &str,
        chid: &str,
        origin_attributes: StringMap<String>,
        endpoint: &str,
        auth: &str,
        private_key: &Vec<u8>,
        system_record: bool,
    ) -> PushRecord;

    fn update_record(&mut self, uaid: &str, chid: &str, endpoint: &str) -> Result<
        PushRecord,
        ErrorKind,
    >;

    fn get_record(&self, uaid: &str, chid: &str) -> Option<PushRecord>;

    fn put_record(&mut self, uaid: &str, chid: &str, record: &PushRecord) -> Result<
        bool,
        ErrorKind,
    >;

    fn purge(&mut self, uaid: &str, chid: Option<&str>) -> Result<bool, ErrorKind>;

    fn generate_channel_id(&self) -> String;

    fn get_channel_list(&self, uaid: &str) -> Option<Vec<String>>;
}

/// The shipped store: record construction works, persistence is stubbed out.
pub struct Store;

impl Storage for Store {
    fn create_record(
        _uaid: &str,
        chid: &str,
        origin_attributes: StringMap<String>,
        endpoint: &str,
        _auth: &str,
        private_key: &Vec<u8>,
        _system_record: bool,
    ) -> (r: PushRecord)
        ensures
            r.endpoint@ == endpoint@,
            r.designator@ == chid@,
            r.origin_attributes@ == origin_attributes@,
            r.push_count == 0,
            r.last_push == 0,
            r.key@ == private_key@,
            !r.system_record,
            r.app_server_key is None,
            r.recent_message_ids@.len() == 0,
            r.quota == 0,
            r.native_id is None,
    {
        PushRecord {
            endpoint: String::from_str(endpoint),
            designator: String::from_str(chid),
            origin_attributes,
            push_count: 0,
            last_push: 0,
            key: clone_bytes(private_key),
            system_record: false,
            app_server_key: None,
            recent_message_ids: Vec::new(),
            ctime: now_u64(),
            quota: 0,
            native_id: None,
        }
    }

    fn get_record(&self, _uaid: &str, _chid: &str) -> (r: Option<PushRecord>)
        ensures
            r is None,
    {
        None
    }

    fn put_record(&mut self, _uaid: &str, _chid: &str, _record: &PushRecord) -> (r: Result<
        bool,
        ErrorKind,
    >)
        ensures
            r == Ok::<bool, ErrorKind>(false),
    {
        Ok(false)
    }

    fn purge(&mut self, _uaid: &str, _chid: Option<&str>) -> (r: Result<bool, ErrorKind>)
        ensures
            r == Ok::<bool, ErrorKind>(false),
    {
        Ok(false)
    }

    fn generate_channel_id(&self) -> (r: String)
        ensures
            r@ == "deadbeef00000000decafbad00000000"@,
    {
        String::from_str("deadbeef00000000decafbad00000000")
    }

    fn update_record(&mut self, _uaid: &str, _chid: &str, _endpoint: &str) -> (r: Result<
        PushRecord,
        ErrorKind,
    >)
        ensures
            r matches Err(e) && e is StorageError,
    {
        Err(ErrorKind::StorageError(String::from_str("unimplemented")))
    }

    fn get_channel_list(&self, _uaid: &str) -> (r: Option<Vec<String>>)
        ensures
            r matches Some(l) && l@.len() == 0,
    {
        Some(Vec::new())
    }
}

} // verus!
