//! Where the game server's WebTransport certificate comes from.

use crate::text::{comma_separated, str_split_commas};
use vstd::prelude::*;

verus! {

/// How the game server obtains its certificate.
#[derive(Debug, Clone)]
pub enum WebTransportCertificateSettings {
    /// Generate a self-signed certificate for the given subject alternative
    /// names, such as `example.com`, `*.gameserver.example.org`, `10.1.2.3`
    /// or `::1`.
    AutoSelfSigned(Vec<String>),
    /// Load the certificate from PEM files.
    FromFile {
        /// Path of the certificate file.
        cert: String,
        /// Path of the private key file.
        key: String,
    },
}

/// The texts of a list of names.
pub open spec fn names_of(names: Seq<String>) -> Seq<Seq<char>> {
    Seq::new(names.len(), |i: int| names[i]@)
}

/// The names that a certificate generated by default is valid for.
pub open spec fn default_sans() -> Seq<Seq<char>> {
    seq!["localhost"@, "127.0.0.1"@, "::1"@]
}

impl Default for WebTransportCertificateSettings {
    /// A self-signed certificate for the local host.
    fn default() -> (settings: Self)
        ensures
            settings matches WebTransportCertificateSettings::AutoSelfSigned(sans)
                && names_of(sans@) == default_sans(),
    {
        let mut sans: Vec<String> = Vec::new();
        sans.push("localhost".to_string());
        sans.push("127.0.0.1".to_string());
        sans.push("::1".to_string());
        assert(names_of(sans@) =~= default_sans());
        WebTransportCertificateSettings::AutoSelfSigned(sans)
    }
}

/// The names that a public address adds to a certificate: the address itself
/// and the wildcard domain of the hosting platform.
pub open spec fn public_ip_sans(public_ip: Option<String>) -> Seq<Seq<char>> {
    match public_ip {
        Some(ip) => seq![ip@, "*.pr.edgegap.net"@],
        None => Seq::empty(),
    }
}

/// The names that a comma-separated list adds to a certificate.
pub open spec fn extra_sans(extra: Option<String>) -> Seq<Seq<char>> {
    match extra {
        Some(list) => comma_separated(list@),
        None => Seq::empty(),
    }
}

/// The names to generate a self-signed certificate for: the configured
/// ones, then the public address of the host with the wildcard domain of the
/// hosting platform, if the host has such an address, then the names of a
/// comma-separated list, if one is given.
pub fn self_signed_sans(
    configured: &Vec<String>,
    public_ip: Option<String>,
    extra: Option<String>,
) -> (sans: Vec<String>)
    ensures
        names_of(sans@) == names_of(configured@) + public_ip_sans(public_ip) + extra_sans(extra),
{
    let mut sans: Vec<String> = Vec::new();
    let mut i: usize = 0;
    while i < configured.len()
        invariant
            i <= configured@.len(),
            sans@.len() == i,
            forall|j: int| 0 <= j < i ==> (#[trigger] sans@[j])@ == configured@[j]@,
        decreases configured@.len() - i,
    {
        sans.push(configured[i].clone());
        i = i + 1;
    }
    assert(names_of(sans@) =~= names_of(configured@));
    match &public_ip {
        Some(ip) => {
            sans.push(ip.clone());
            sans.push("*.pr.edgegap.net".to_string());
        },
        None => {},
    }
    let ghost before = names_of(sans@);
    assert(before =~= names_of(configured@) + public_ip_sans(public_ip));
    match &extra {
        Some(list) => {
            let pieces = str_split_commas(list.as_str());
            let mut k: usize = 0;
            while k < pieces.len()
                invariant
                    k <= pieces@.len(),
                    pieces@.len() == comma_separated(list@).len(),
                    forall|j: int|
                        0 <= j < pieces@.len() ==> (#[trigger] pieces@[j])@ == comma_separated(
                            list@,
                        )[j],
                    sans@.len() == before.len() + k,
                    forall|j: int| 0 <= j < before.len() ==> (#[trigger] sans@[j])@ == before[j],
                    forall|j: int|
                        0 <= j < k ==> (#[trigger] sans@[before.len() + j])@ == comma_separated(
                            list@,
                        )[j],
                decreases pieces@.len() - k,
            {
                let ghost earlier = sans@;
                sans.push(pieces[k].to_string());
                assert forall|j: int| 0 <= j < k + 1 implies (#[trigger] sans@[before.len()
                    + j])@ == comma_separated(list@)[j] by {
                    if j < k {
                        assert(sans@[before.len() + j] == earlier[before.len() + j]);
                    }
                }
                k = k + 1;
            }
            assert forall|j: int| 0 <= j < sans@.len() implies names_of(sans@)[j] == (before
                + comma_separated(list@))[j] by {
                if j >= before.len() {
                    assert(sans@[before.len() + (j - before.len())]@ == comma_separated(list@)[j
                        - before.len()]);
                }
            }
            assert(names_of(sans@) =~= before + comma_separated(list@));
        },
        None => {
            assert(before =~= before + Seq::<Seq<char>>::empty());
        },
    }
    sans
}

} // verus!
