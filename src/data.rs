use vstd::prelude::*;

verus! {

/// What a server could not be set up with.
#[derive(Debug, Clone, Copy, PartialEq, Eq, Structural)]
pub enum SetupError {
    /// Every candidate prefix is already a path of the asset bundle.
    NoFreePrefix,
}

/// The value stored under `key`, the earliest entry of that key winning.
pub open spec fn lookup_in(entries: Seq<(String, Vec<u8>)>, key: Seq<char>) -> Option<Seq<u8>>
    decreases entries.len(),
{
    if entries.len() == 0 {
        None
    } else if entries[0].0@ == key {
        Some(entries[0].1@)
    } else {
        lookup_in(entries.drop_first(), key)
    }
}

/// A copy of a byte vector.
pub fn copy_bytes(v: &Vec<u8>) -> (r: Vec<u8>)
    ensures
        r@ == v@,
{
    let mut r: Vec<u8> = Vec::with_capacity(v.len());
    let mut i: usize = 0;
    while i < v.len()
        invariant
            i <= v@.len(),
            r@ == v@.subrange(0, i as int),
        decreases v@.len() - i,
    {
        r.push(v[i]);
        i = i + 1;
        assert(r@ =~= v@.subrange(0, i as int));
    }
    assert(r@ =~= v@);
    r
}

/// Whether two strings hold the same characters.
pub fn same_text(a: &str, b: &str) -> (r: bool)
    ensures
        r == (a@ == b@),
{
    let n = a.unicode_len();
    if n != b.unicode_len() {
        return false;
    }
    let mut i: usize = 0;
    while i < n
        invariant
            n == a@.len(),
            n == b@.len(),
            i <= n,
            forall|j: int| 0 <= j < i ==> a@[j] == b@[j],
        decreases n - i,
    {
        if a.get_char(i) != b.get_char(i) {
            return false;
        }
        i = i + 1;
    }
    assert(a@ =~= b@);
    true
}

/// The read-only bundle of web front-end files, keyed by path.
pub struct Asset {
    entries: Vec<(String, Vec<u8>)>,
}

impl Asset {
    /// The bytes stored under `path`, if any.
    pub closed spec fn spec_get(&self, path: Seq<char>) -> Option<Seq<u8>> {
        lookup_in(self.entries@, path)
    }

    /// An empty bundle.
    pub fn new() -> (r: Asset)
        ensures
            forall|p: Seq<char>| #[trigger] r.spec_get(p) is None,
    {
        Asset { entries: Vec::new() }
    }

    /// Stores `data` under `path`, in place of what was there.
    pub fn insert(&mut self, path: String, data: Vec<u8>)
        ensures
            final(self).spec_get(path@) == Some(data@),
            forall|p: Seq<char>| p != path@ ==> #[trigger] final(self).spec_get(p) == old(self).spec_get(p),
    {
        let ghost old_entries = self.entries@;
        let ghost key = path@;
        let ghost bytes = data@;
        self.entries.insert(0, (path, data));
        assert(self.entries@.drop_first() =~= old_entries);
        assert(self.entries@[0].0@ == key && self.entries@[0].1@ == bytes);
    }

    /// Whether the bundle holds `path`.
    pub fn contains(&self, path: &str) -> (r: bool)
        ensures
            r == self.spec_get(path@) is Some,
    {
        self.get(path).is_some()
    }

    /// A copy of the bytes stored under `path`.
    pub fn get(&self, path: &str) -> (r: Option<Vec<u8>>)
        ensures
            r is None <==> self.spec_get(path@) is None,
            r matches Some(d) ==> self.spec_get(path@) == Some(d@),
    {
        let mut i: usize = 0;
        assert(self.entries@.subrange(0, self.entries@.len() as int) =~= self.entries@);
        while i < self.entries.len()
            invariant
                i <= self.entries@.len(),
                lookup_in(self.entries@, path@) == lookup_in(
                    self.entries@.subrange(i as int, self.entries@.len() as int),
                    path@,
                ),
            decreases self.entries@.len() - i,
        {
            let ghost rest = self.entries@.subrange(i as int, self.entries@.len() as int);
            assert(rest.drop_first() =~= self.entries@.subrange(
                i + 1,
                self.entries@.len() as int,
            ));
            let entry = &self.entries[i];
            assert(rest[0] == self.entries@[i as int]);
            if same_text(entry.0.as_str(), path) {
                return Some(copy_bytes(&entry.1));
            }
            i = i + 1;
        }
        None
    }
}

/// The first candidate for the prefix of sandboxed-file URLs.
pub const PREFIX_FIRST: &'static str = "shared-files";

/// The second candidate for the prefix of sandboxed-file URLs.
pub const PREFIX_SECOND: &'static str = "_shared_files_";

/// The third candidate for the prefix of sandboxed-file URLs.
pub const PREFIX_THIRD: &'static str = "__shared_files__";

/// The first candidate prefix that is not a path of the bundle.
pub open spec fn chosen_prefix(asset: &Asset) -> Option<Seq<char>> {
    if asset.spec_get(PREFIX_FIRST@) is None {
        Some(PREFIX_FIRST@)
    } else if asset.spec_get(PREFIX_SECOND@) is None {
        Some(PREFIX_SECOND@)
    } else if asset.spec_get(PREFIX_THIRD@) is None {
        Some(PREFIX_THIRD@)
    } else {
        None
    }
}

/// Picks the first candidate prefix that is not a path of the bundle.
pub fn generate_prefix(asset: &Asset) -> (r: Result<&'static str, SetupError>)
    ensures
        r is Err <==> chosen_prefix(asset) is None,
        r matches Ok(p) ==> chosen_prefix(asset) == Some(p@),
        r is Err ==> r == Err::<&'static str, SetupError>(SetupError::NoFreePrefix),
{
    if !asset.contains(PREFIX_FIRST) {
        Ok(PREFIX_FIRST)
    } else if !asset.contains(PREFIX_SECOND) {
        Ok(PREFIX_SECOND)
    } else if !asset.contains(PREFIX_THIRD) {
        Ok(PREFIX_THIRD)
    } else {
        Err(SetupError::NoFreePrefix)
    }
}

/// An IP address, version 4 or 6.
#[derive(Debug, Clone, Copy, PartialEq, Eq, Structural)]
pub enum IpAddress {
    V4(u8, u8, u8, u8),
    V6(u16, u16, u16, u16, u16, u16, u16, u16),
}

impl IpAddress {
    /// `127.0.0.0/8`, or `::1`.
    pub open spec fn spec_is_loopback(&self) -> bool {
        match *self {
            IpAddress::V4(a, _, _, _) => a == 127,
            IpAddress::V6(a, b, c, d, e, f, g, h) => a == 0 && b == 0 && c == 0 && d == 0 && e
                == 0 && f == 0 && g == 0 && h == 1,
        }
    }

    /// `0.0.0.0`, or `::`.
    pub open spec fn spec_is_unspecified(&self) -> bool {
        match *self {
            IpAddress::V4(a, b, c, d) => a == 0 && b == 0 && c == 0 && d == 0,
            IpAddress::V6(a, b, c, d, e, f, g, h) => a == 0 && b == 0 && c == 0 && d == 0 && e
                == 0 && f == 0 && g == 0 && h == 0,
        }
    }

    pub fn is_loopback(&self) -> (r: bool)
        ensures
            r == self.spec_is_loopback(),
    {
        match *self {
            IpAddress::V4(a, _, _, _) => a == 127,
            IpAddress::V6(a, b, c, d, e, f, g, h) => a == 0 && b == 0 && c == 0 && d == 0 && e
                == 0 && f == 0 && g == 0 && h == 1,
        }
    }

    pub fn is_unspecified(&self) -> (r: bool)
        ensures
            r == self.spec_is_unspecified(),
    {
        match *self {
            IpAddress::V4(a, b, c, d) => a == 0 && b == 0 && c == 0 && d == 0,
            IpAddress::V6(a, b, c, d, e, f, g, h) => a == 0 && b == 0 && c == 0 && d == 0 && e
                == 0 && f == 0 && g == 0 && h == 0,
        }
    }
}

/// The addresses a server bound to `ip` can be reached at.
#[derive(Debug)]
pub enum AvailableIp {
    /// Exactly these.
    Fixed(Vec<IpAddress>),
    /// Every address of every network interface.
    AllInterfaces,
}

/// A loopback address is reachable alone; an unspecified one on every
/// interface; any other as itself and as `127.0.0.1`.
pub fn get_available_ip(ip: IpAddress) -> (r: AvailableIp)
    ensures
        ip.spec_is_loopback() ==> (r matches AvailableIp::Fixed(v) && v@ == seq![ip]),
        !ip.spec_is_loopback() && ip.spec_is_unspecified() ==> r is AllInterfaces,
        !ip.spec_is_loopback() && !ip.spec_is_unspecified() ==> (r matches AvailableIp::Fixed(v)
            && v@ == seq![ip, IpAddress::V4(127, 0, 0, 1)]),
{
    if ip.is_loopback() {
        let mut v: Vec<IpAddress> = Vec::new();
        v.push(ip);
        return AvailableIp::Fixed(v);
    }
    if !ip.is_unspecified() {
        let mut v: Vec<IpAddress> = Vec::new();
        v.push(ip);
        v.push(IpAddress::V4(127, 0, 0, 1));
        return AvailableIp::Fixed(v);
    }
    AvailableIp::AllInterfaces
}

/// What the server was started with and what it derived from that.
#[derive(Debug)]
pub struct ServerInfo {
    pub arg_path: String,
    pub arg_allow_cors: bool,
    pub arg_allow_manage: bool,
    pub arg_allow_upload: bool,
    pub arg_allow_download: bool,
    pub arg_ip: IpAddress,
    pub arg_port: u16,
    pub root: String,
    pub root_canonical: String,
    pub prefix: String,
    pub available_ip: Vec<IpAddress>,
}

/// `/<name>/`.
pub open spec fn url_prefix_of(name: Seq<char>) -> Seq<char> {
    seq!['/'] + name + seq!['/']
}

impl ServerInfo {
    /// Gathers the settings; `root_canonical` is the canonical form of `path`
    /// and `available_ip` the addresses the server is reachable at.
    pub fn new(
        path: &str,
        allow_cors: bool,
        allow_manage: bool,
        allow_upload: bool,
        allow_download: bool,
        ip: IpAddress,
        port: u16,
        root_canonical: &str,
        asset: &Asset,
        available_ip: Vec<IpAddress>,
    ) -> (r: Result<ServerInfo, SetupError>)
        ensures
            r is Err <==> chosen_prefix(asset) is None,
            r matches Ok(info) ==> {
                &&& info.arg_path@ == path@
                &&& info.arg_allow_cors == allow_cors
                &&& info.arg_allow_manage == allow_manage
                &&& info.arg_allow_upload == allow_upload
                &&& info.arg_allow_download == allow_download
                &&& info.arg_ip == ip
                &&& info.arg_port == port
                &&& info.root@ == root_canonical@
                &&& info.root_canonical@ == root_canonical@
                &&& chosen_prefix(asset) matches Some(p) && info.prefix@ == url_prefix_of(p)
                &&& info.available_ip@ == available_ip@
            },
    {
        proof {
            reveal_strlit("/");
        }
        let name = match generate_prefix(asset) {
            Ok(p) => p,
            Err(e) => return Err(e),
        };
        let prefix = String::from_str("/").concat(name).concat("/");
        Ok(ServerInfo {
            arg_path: String::from_str(path),
            arg_allow_cors: allow_cors,
            arg_allow_manage: allow_manage,
            arg_allow_upload: allow_upload,
            arg_allow_download: allow_download,
            arg_ip: ip,
            arg_port: port,
            root: String::from_str(root_canonical),
            root_canonical: String::from_str(root_canonical),
            prefix,
            available_ip,
        })
    }
}

} // verus!
