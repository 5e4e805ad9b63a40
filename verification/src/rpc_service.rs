//! What the management service of a node answers.

use vstd::prelude::*;
use crate::packet::PeerId;

verus! {

/// Why a management request was refused.
#[derive(Clone, Copy, Debug, PartialEq, Eq, Structural)]
pub enum ManagementError {
    /// The request needs a loopback channel and a valid administrator token.
    NotAuthorized,
    /// Only nodes with the secret of the network issue credentials.
    CannotGenerate,
    /// Only nodes with the secret of the network revoke credentials.
    CannotRevoke,
    /// A credential has to be valid for some time.
    TtlNotPositive,
}

impl ManagementError {
    pub open spec fn text(self) -> Seq<char> {
        match self {
            ManagementError::NotAuthorized =>
                "credential management requires a loopback channel and a valid administrator token"@,
            ManagementError::CannotGenerate =>
                "only admin nodes (with network_secret) can generate credentials"@,
            ManagementError::CannotRevoke =>
                "only admin nodes (with network_secret) can revoke credentials"@,
            ManagementError::TtlNotPositive => "ttl_seconds must be positive"@,
        }
    }

    pub fn message(&self) -> (message: String)
        ensures
            message@ == self.text(),
    {
        match self {
            ManagementError::NotAuthorized =>
                "credential management requires a loopback channel and a valid administrator token".to_string(),
            ManagementError::CannotGenerate =>
                "only admin nodes (with network_secret) can generate credentials".to_string(),
            ManagementError::CannotRevoke =>
                "only admin nodes (with network_secret) can revoke credentials".to_string(),
            ManagementError::TtlNotPositive => "ttl_seconds must be positive".to_string(),
        }
    }
}

/// The host that a URL names, if the text is a URL with a host.
pub uninterp spec fn url_host(text: Seq<char>) -> Option<Seq<char>>;

/// Calls `url::Url::parse`, and `url::Url::host_str` on what it gives. The
/// result is a function of the text alone.
#[verifier::external_body]
fn host_of_url(text: &str) -> (host: Option<String>)
    ensures
        host is Some == url_host(text@) is Some,
        host matches Some(h) ==> h@ == url_host(text@)->0,
{
    let parsed = url::Url::parse(text).ok()?;
    let host = parsed.host_str()?;
    Some(host.to_string())
}

/// A decimal digit.
pub open spec fn digit(value: u8) -> char {
    (48 + value) as u8 as char
}

pub open spec fn is_digit(c: char) -> bool {
    '0' <= c && c <= '9'
}

/// A number of eight bits in decimal, without leading zeros.
pub open spec fn octet_text(value: u8) -> Seq<char> {
    if value < 10 {
        seq![digit(value)]
    } else if value < 100 {
        seq![digit(value / 10), digit(value % 10)]
    } else {
        seq![digit(value / 100), digit(value / 10 % 10), digit(value % 10)]
    }
}

/// Four numbers with dots between them.
pub open spec fn dotted(a: u8, b: u8, c: u8, d: u8) -> Seq<char> {
    octet_text(a) + seq!['.'] + octet_text(b) + seq!['.'] + octet_text(c) + seq!['.'] + octet_text(
        d,
    )
}

/// Whether a host is the address of the node itself: `127.0.0.0/8`. An address
/// of the sixth protocol stands in brackets in a host, and is none.
pub open spec fn is_loopback(host: Seq<char>) -> bool {
    exists|b: u8, c: u8, d: u8| host == #[trigger] dotted(127, b, c, d)
}

/// Whether a number stands at a position, and no digit follows it.
spec fn octet_at(text: Seq<char>, at: int, end: int, value: u8) -> bool {
    &&& 0 <= at <= end <= text.len()
    &&& text.subrange(at, end) == octet_text(value)
    &&& end < text.len() ==> !is_digit(text[end])
}

proof fn lemma_octet(value: u8)
    ensures
        1 <= octet_text(value).len() <= 3,
        forall|i: int| 0 <= i < octet_text(value).len() ==> is_digit(#[trigger] octet_text(value)[i]),
{
}

proof fn lemma_octet_is_unique(text: Seq<char>, at: int, e1: int, v1: u8, e2: int, v2: u8)
    requires
        octet_at(text, at, e1, v1),
        octet_at(text, at, e2, v2),
    ensures
        e1 == e2,
        v1 == v2,
{
    lemma_octet(v1);
    lemma_octet(v2);
    let t1 = text.subrange(at, e1);
    let t2 = text.subrange(at, e2);
    if e1 < e2 {
        assert(t2[e1 - at] == text[e1]);
    }
    if e2 < e1 {
        assert(t1[e2 - at] == text[e2]);
    }
    assert(t1 =~= t2);
    let o1 = octet_text(v1);
    let o2 = octet_text(v2);
    assert(o1[0] == o2[0]);
    if o1.len() >= 2 {
        assert(o1[1] == o2[1]);
    }
    if o1.len() == 3 {
        assert(o1[2] == o2[2]);
    }
}

/// The number of eight bits at a position, and where it ends.
fn read_octet(text: &str, at: usize, len: usize) -> (read: Option<(u8, usize)>)
    requires
        len == text@.len(),
        at <= len,
    ensures
        read matches Some(r) ==> octet_at(text@, at as int, r.1 as int, r.0),
        read is None ==> forall|e: int, v: u8| !octet_at(text@, at as int, e, v),
{
    let mut end: usize = at;
    while end < len && end - at < 4 && is_decimal(text.get_char(end))
        invariant
            len == text@.len(),
            at <= end <= len,
            end - at <= 4,
            forall|k: int| at <= k < end ==> is_digit(#[trigger] text@[k]),
        decreases len - end,
    {
        end = end + 1;
    }
    let n: usize = end - at;
    let mut value: u32 = 0;
    let mut good = n >= 1 && n <= 3;
    let ghost part = text@.subrange(at as int, end as int);
    if n == 1 {
        value = decimal(text.get_char(at));
    } else if n == 2 {
        let tens: u32 = decimal(text.get_char(at));
        value = tens * 10 + decimal(text.get_char(at + 1));
        good = tens > 0;
    } else if n == 3 {
        let hundreds: u32 = decimal(text.get_char(at));
        let tens: u32 = decimal(text.get_char(at + 1));
        value = hundreds * 100 + tens * 10 + decimal(text.get_char(at + 2));
        good = hundreds > 0 && value <= 255;
    }
    if good {
        proof {
            lemma_value_of_octet(value as u8);
            assert(part =~= octet_text(value as u8));
            assert(octet_at(text@, at as int, end as int, value as u8));
        }
        return Some((value as u8, end));
    }
    proof {
        assert forall|e: int, v: u8| !octet_at(text@, at as int, e, v) by {
            if octet_at(text@, at as int, e, v) {
                lemma_octet(v);
                lemma_value_of_octet(v);
                let o = text@.subrange(at as int, e);
                if e < end {
                    assert(is_digit(text@[e]));
                }
                if end < e {
                    assert(o[end - at] == text@[end as int]);
                    assert(is_digit(text@[end as int]));
                }
                assert(o =~= part);
            }
        }
    }
    None
}

/// The digits of a number of eight bits, and the number that they make.
proof fn lemma_value_of_octet(value: u8)
    ensures
        ({
            let o = octet_text(value);
            &&& o.len() == 1 <==> value < 10
            &&& o.len() == 3 <==> value >= 100
            &&& o.len() == 1 ==> value == o[0] as u32 - 48
            &&& o.len() == 2 ==> o[0] as u32 > 48 && value == (o[0] as u32 - 48) * 10 + (o[1] as u32
                - 48)
            &&& o.len() == 3 ==> o[0] as u32 > 48 && value == (o[0] as u32 - 48) * 100 + (
            o[1] as u32 - 48) * 10 + (o[2] as u32 - 48)
        }),
{
}

fn is_decimal(c: char) -> (decimal: bool)
    ensures
        decimal == is_digit(c),
{
    '0' <= c && c <= '9'
}

fn decimal(c: char) -> (value: u32)
    requires
        is_digit(c),
    ensures
        value <= 9,
        c == digit(value as u8),
        value == c as u32 - 48,
{
    c as u32 - 48
}

/// Whether a number and a dot stand at a position; the dot stands at `end`.
spec fn part_at(text: Seq<char>, at: int, end: int, value: u8) -> bool {
    octet_at(text, at, end, value) && end < text.len() && text[end] == '.'
}

/// The number in front of a dot at a position, and where the next one starts.
fn read_part(text: &str, at: usize, len: usize) -> (read: Option<(u8, usize)>)
    requires
        len == text@.len(),
        at <= len,
    ensures
        read matches Some(r) ==> 1 <= r.1 <= len && part_at(text@, at as int, r.1 - 1, r.0),
        read is None ==> forall|e: int, v: u8| !part_at(text@, at as int, e, v),
{
    match read_octet(text, at, len) {
        Some((octet, end)) => {
            if end < len && text.get_char(end) == '.' {
                return Some((octet, end + 1));
            }
            proof {
                assert forall|e: int, v: u8| !part_at(text@, at as int, e, v) by {
                    if part_at(text@, at as int, e, v) {
                        lemma_octet_is_unique(text@, at as int, end as int, octet, e, v);
                    }
                }
            }
            None
        },
        None => None,
    }
}

/// Where the numbers of a dotted address stand.
proof fn lemma_dotted(text: Seq<char>, a: u8, b: u8, c: u8, d: u8)
    requires
        text == dotted(a, b, c, d),
    ensures
        ({
            let e0 = octet_text(a).len() as int;
            let e1 = e0 + 1 + octet_text(b).len();
            let e2 = e1 + 1 + octet_text(c).len();
            &&& part_at(text, 0, e0, a)
            &&& part_at(text, e0 + 1, e1, b)
            &&& part_at(text, e1 + 1, e2, c)
            &&& octet_at(text, e2 + 1, text.len() as int, d)
        }),
{
    let e0 = octet_text(a).len() as int;
    let e1 = e0 + 1 + octet_text(b).len();
    let e2 = e1 + 1 + octet_text(c).len();
    assert(text.subrange(0, e0) =~= octet_text(a));
    assert(text[e0] == '.');
    assert(text.subrange(e0 + 1, e1) =~= octet_text(b));
    assert(text[e1] == '.');
    assert(text.subrange(e1 + 1, e2) =~= octet_text(c));
    assert(text[e2] == '.');
    assert(text.subrange(e2 + 1, text.len() as int) =~= octet_text(d));
}

/// Whether a host is the address of the node itself.
pub fn host_is_loopback(host: &str) -> (loopback: bool)
    ensures
        loopback == is_loopback(host@),
{
    let len: usize = host.unicode_len();
    let ghost text = host@;
    let ghost (b, c, d) = choose|b: u8, c: u8, d: u8| text == #[trigger] dotted(127, b, c, d);
    let ghost e0 = octet_text(127).len() as int;
    let ghost e1 = e0 + 1 + octet_text(b).len();
    let ghost e2 = e1 + 1 + octet_text(c).len();
    proof {
        if is_loopback(text) {
            lemma_dotted(text, 127, b, c, d);
        }
    }
    let (first, p1) = match read_part(host, 0, len) {
        Some(read) => read,
        None => {
            return false;
        },
    };
    proof {
        if is_loopback(text) {
            lemma_octet_is_unique(text, 0, p1 - 1, first, e0, 127);
        }
    }
    let (second, p2) = match read_part(host, p1, len) {
        Some(read) => read,
        None => {
            return false;
        },
    };
    proof {
        if is_loopback(text) {
            lemma_octet_is_unique(text, p1 as int, p2 - 1, second, e1, b);
        }
    }
    let (third, p3) = match read_part(host, p2, len) {
        Some(read) => read,
        None => {
            return false;
        },
    };
    proof {
        if is_loopback(text) {
            lemma_octet_is_unique(text, p2 as int, p3 - 1, third, e2, c);
        }
    }
    let (fourth, end) = match read_octet(host, p3, len) {
        Some(read) => read,
        None => {
            return false;
        },
    };
    proof {
        if is_loopback(text) {
            lemma_octet_is_unique(text, p3 as int, end as int, fourth, text.len() as int, d);
        }
        if end == len && first == 127 {
            assert(text =~= text.subrange(0, p1 - 1) + seq!['.'] + text.subrange(
                p1 as int,
                p2 - 1,
            ) + seq!['.'] + text.subrange(p2 as int, p3 - 1) + seq!['.'] + text.subrange(
                p3 as int,
                end as int,
            ));
            assert(text == dotted(127, second, third, fourth));
        }
    }
    end == len && first == 127
}

/// Whether two texts are the same. Every character is looked at, whatever came
/// before it.
fn same_text(a: &str, b: &str) -> (same: bool)
    ensures
        same == (a@ == b@),
{
    let len: usize = a.unicode_len();
    if b.unicode_len() != len {
        return false;
    }
    let mut same = true;
    let mut i: usize = 0;
    while i < len
        invariant
            len == a@.len(),
            len == b@.len(),
            i <= len,
            same == (forall|k: int| 0 <= k < i ==> a@[k] == b@[k]),
        decreases len - i,
    {
        let equal = a.get_char(i) == b.get_char(i);
        if !equal {
            same = false;
        }
        i = i + 1;
    }
    if same {
        assert(a@ =~= b@);
    }
    same
}

/// Whether a request may manage credentials: it comes from the node itself, the
/// node knows the secret of the network, and the token is that secret.
pub open spec fn may_manage(
    host: Option<Seq<char>>,
    network_secret: Option<Seq<char>>,
    admin_token: Option<Seq<char>>,
) -> bool {
    &&& host is Some
    &&& is_loopback(host->0)
    &&& network_secret is Some
    &&& (network_secret->0).len() > 0
    &&& admin_token == network_secret
}

/// The text of an optional string.
pub open spec fn text_of(value: Option<&str>) -> Option<Seq<char>> {
    match value {
        Some(text) => Some(text@),
        None => None,
    }
}

/// The host that an optional URL names.
pub open spec fn remote_host(remote_url: Option<&str>) -> Option<Seq<char>> {
    match remote_url {
        Some(url) => url_host(url@),
        None => None,
    }
}

/// Whether a request from a host may manage credentials.
pub fn authorize_from_host(
    host: Option<&str>,
    network_secret: Option<&str>,
    admin_token: Option<&str>,
) -> (authorized: Result<(), ManagementError>)
    ensures
        authorized == if may_manage(text_of(host), text_of(network_secret), text_of(admin_token)) {
            Ok::<(), ManagementError>(())
        } else {
            Err(ManagementError::NotAuthorized)
        },
{
    let from_loopback = match host {
        Some(host) => host_is_loopback(host),
        None => false,
    };
    let token_valid = match (network_secret, admin_token) {
        (Some(secret), Some(token)) => {
            let same = same_text(token, secret);
            secret.unicode_len() > 0 && same
        },
        _ => false,
    };
    if from_loopback && token_valid {
        Ok(())
    } else {
        Err(ManagementError::NotAuthorized)
    }
}

/// What a credential is asked to be.
#[derive(Clone, Copy, Debug, PartialEq, Eq, Structural)]
pub struct CredentialTerms {
    pub ttl_seconds: u64,
    pub reusable: bool,
}

/// The management service of a node, with the handle of what it manages.
#[derive(Clone, Debug)]
pub struct PeerManagerRpcService<M> {
    pub peer_manager: M,
}

impl<M> PeerManagerRpcService<M> {
    pub fn new(peer_manager: M) -> (service: Self)
        ensures
            service.peer_manager == peer_manager,
    {
        PeerManagerRpcService { peer_manager }
    }

    /// What is said of the peers of the own network and of foreign networks, one
    /// after the other.
    pub fn list_peers(own: Vec<PeerListing>, foreign: Vec<PeerListing>) -> (infos: Vec<PeerInfo>)
        ensures
            infos@.len() == own@.len() + foreign@.len(),
            forall|i: int|
                0 <= i < infos@.len() ==> described((own@ + foreign@)[i], #[trigger] infos@[i]),
    {
        let mut rest = foreign;
        let mut all = own;
        all.append(&mut rest);
        assert(all@ =~= own@ + foreign@);
        let ghost listed = all@;
        let mut infos: Vec<PeerInfo> = Vec::new();
        let ghost mut i: int = 0;
        while all.len() > 0
            invariant
                i + all@.len() == listed.len(),
                i >= 0,
                all@ == listed.skip(i),
                infos@.len() == i,
                forall|k: int| 0 <= k < i ==> described(listed[k], #[trigger] infos@[k]),
            decreases all@.len(),
        {
            let listing = all.remove(0);
            assert(listing == listed[i]);
            assert(all@ =~= listed.skip(i + 1));
            infos.push(describe_peer(listing));
            proof {
                i = i + 1;
            }
        }
        infos
    }

    /// Whether a request may manage credentials: it comes from the node itself and
    /// has the secret of the network as its token.
    pub fn authorize_credential_management(
        remote_url: Option<&str>,
        network_secret: Option<&str>,
        admin_token: Option<&str>,
    ) -> (authorized: Result<(), ManagementError>)
        ensures
            authorized == if may_manage(
                remote_host(remote_url),
                text_of(network_secret),
                text_of(admin_token),
            ) {
                Ok::<(), ManagementError>(())
            } else {
                Err(ManagementError::NotAuthorized)
            },
    {
        let found = match remote_url {
            Some(url) => host_of_url(url),
            None => None,
        };
        match &found {
            Some(host) => authorize_from_host(Some(host.as_str()), network_secret, admin_token),
            None => authorize_from_host(None, network_secret, admin_token),
        }
    }

    /// Decides on a request to issue a credential. A credential can be used again
    /// unless the request says otherwise.
    pub fn generate_credential(
        &self,
        remote_url: Option<&str>,
        network_secret: Option<&str>,
        admin_token: Option<&str>,
        ttl_seconds: i64,
        reusable: Option<bool>,
    ) -> (terms: Result<CredentialTerms, ManagementError>)
        ensures
            terms == generation_of(
                may_manage(remote_host(remote_url), text_of(network_secret), text_of(admin_token)),
                text_of(network_secret),
                ttl_seconds,
                reusable,
            ),
    {
        match Self::authorize_credential_management(remote_url, network_secret, admin_token) {
            Ok(_) => {},
            Err(error) => {
                return Err(error);
            },
        }
        if !has_secret(network_secret) {
            return Err(ManagementError::CannotGenerate);
        }
        if ttl_seconds <= 0 {
            return Err(ManagementError::TtlNotPositive);
        }
        Ok(
            CredentialTerms {
                ttl_seconds: ttl_seconds as u64,
                reusable: match reusable {
                    Some(reusable) => reusable,
                    None => true,
                },
            },
        )
    }

    /// Decides on a request to revoke a credential.
    pub fn revoke_credential(
        &self,
        remote_url: Option<&str>,
        network_secret: Option<&str>,
        admin_token: Option<&str>,
    ) -> (allowed: Result<(), ManagementError>)
        ensures
            allowed == if !may_manage(
                remote_host(remote_url),
                text_of(network_secret),
                text_of(admin_token),
            ) {
                Err::<(), ManagementError>(ManagementError::NotAuthorized)
            } else if text_of(network_secret) is None || (text_of(network_secret)->0).len() == 0 {
                Err(ManagementError::CannotRevoke)
            } else {
                Ok(())
            },
    {
        match Self::authorize_credential_management(remote_url, network_secret, admin_token) {
            Ok(_) => {},
            Err(error) => {
                return Err(error);
            },
        }
        if !has_secret(network_secret) {
            return Err(ManagementError::CannotRevoke);
        }
        Ok(())
    }
}

/// Why a credential cannot be issued, or what it is to be.
pub open spec fn generation_of(
    authorized: bool,
    network_secret: Option<Seq<char>>,
    ttl_seconds: i64,
    reusable: Option<bool>,
) -> Result<CredentialTerms, ManagementError> {
    if !authorized {
        Err(ManagementError::NotAuthorized)
    } else if network_secret is None || (network_secret->0).len() == 0 {
        Err(ManagementError::CannotGenerate)
    } else if ttl_seconds <= 0 {
        Err(ManagementError::TtlNotPositive)
    } else {
        Ok(
            CredentialTerms {
                ttl_seconds: ttl_seconds as u64,
                reusable: match reusable {
                    Some(reusable) => reusable,
                    None => true,
                },
            },
        )
    }
}

fn has_secret(network_secret: Option<&str>) -> (has: bool)
    ensures
        has == (text_of(network_secret) is Some && (text_of(network_secret)->0).len() > 0),
{
    match network_secret {
        Some(secret) => secret.unicode_len() > 0,
        None => false,
    }
}

/// What is found of a peer: its connections in the network of the node, and in
/// foreign networks. Connections are named by their identifiers.
pub struct PeerListing {
    pub peer_id: PeerId,
    pub default_conn_id: Option<u128>,
    pub directly_connected_conns: Vec<u128>,
    pub own_conns: Option<Vec<u128>>,
    pub foreign_conns: Option<Vec<u128>>,
}

/// What is said of a peer.
pub struct PeerInfo {
    pub peer_id: PeerId,
    pub default_conn_id: Option<u128>,
    pub directly_connected_conns: Vec<u128>,
    pub conns: Vec<u128>,
}

/// The connections that are said of a peer: those of the own network first,
/// then those of foreign networks, else none.
pub open spec fn conns_of(listing: PeerListing) -> Seq<u128> {
    match listing.own_conns {
        Some(conns) => conns@,
        None => match listing.foreign_conns {
            Some(conns) => conns@,
            None => Seq::empty(),
        },
    }
}

fn describe_peer(listing: PeerListing) -> (info: PeerInfo)
    ensures
        described(listing, info),
{
    let conns = match listing.own_conns {
        Some(conns) => conns,
        None => match listing.foreign_conns {
            Some(conns) => conns,
            None => Vec::new(),
        },
    };
    assert(conns@ =~= conns_of(listing));
    PeerInfo {
        peer_id: listing.peer_id,
        default_conn_id: listing.default_conn_id,
        directly_connected_conns: listing.directly_connected_conns,
        conns,
    }
}

/// Whether this is what is said of a peer.
pub open spec fn described(listing: PeerListing, info: PeerInfo) -> bool {
    &&& info.peer_id == listing.peer_id
    &&& info.default_conn_id == listing.default_conn_id
    &&& info.directly_connected_conns == listing.directly_connected_conns
    &&& info.conns@ == conns_of(listing)
}

/// Nothing that does not come from the node itself manages credentials,
/// whatever token it has.
pub proof fn lemma_remote_requests_are_refused(
    host: Option<Seq<char>>,
    network_secret: Option<Seq<char>>,
    admin_token: Option<Seq<char>>,
)
    requires
        host is None || !is_loopback(host->0),
    ensures
        !may_manage(host, network_secret, admin_token),
{
}

/// A node without the secret of the network manages no credentials.
pub proof fn lemma_secret_is_needed(
    host: Option<Seq<char>>,
    network_secret: Option<Seq<char>>,
    admin_token: Option<Seq<char>>,
)
    requires
        network_secret is None || (network_secret->0).len() == 0,
    ensures
        !may_manage(host, network_secret, admin_token),
{
}

} // verus!
