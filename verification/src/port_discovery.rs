//! The service-discovery registration: a lease that maps an identifier for
//! the VI and install to the listener's port, registered with the local
//! discovery service at launch and withdrawn the moment the channel
//! connects, so the child can find the port but nothing stays advertised.

use vstd::prelude::*;
use vstd::string::{StrSliceExecFns, StringExecFns};
use crate::installs::{LabviewInstall, bitness_chars, major_of};
use crate::labview_error::LabVIEWError;
use crate::strutil::{dec_chars, u64_to_string};

verus! {

/// The characters the lease name strips from the VI path.
pub open spec fn is_stripped_char(c: char) -> bool {
    c == ':' || c == '\\' || c == '.' || c == ' ' || c == '/' || c == '?'
}

/// The VI path with the stripped characters removed.
pub open spec fn reg_name_chars(s: Seq<char>) -> Seq<char>
    decreases s.len(),
{
    if s.len() == 0 {
        Seq::empty()
    } else {
        reg_name_chars(s.drop_last()) + (if is_stripped_char(s.last()) {
            Seq::<char>::empty()
        } else {
            seq![s.last()]
        })
    }
}

/// The lease name an install and VI path register under.
pub open spec fn registration_id_chars(vi_path: Seq<char>, install: LabviewInstall) -> Seq<
    char,
> {
    "cli/"@ + major_of(install.version@) + "/"@ + bitness_chars(install.bitness) + "/"@
        + reg_name_chars(vi_path)
}

/// Generates an ID unique to the install and VI path. The path should be the
/// full path to the VI, as LabVIEW itself will name it.
pub fn generate_registration_id(vi_path: &str, install: &LabviewInstall) -> (r: String)
    ensures
        r@ == registration_id_chars(vi_path@, *install),
{
    let mut id = String::from_str("cli/");
    let major = install.major_version();
    id.append(major.as_str());
    id.append("/");
    let bit = install.bitness.display_string();
    id.append(bit.as_str());
    id.append("/");
    let ghost base = id@;
    let n = vi_path.unicode_len();
    let mut i: usize = 0;
    while i < n
        invariant
            0 <= i <= n,
            n == vi_path@.len(),
            base == "cli/"@ + major_of(install.version@) + "/"@ + bitness_chars(install.bitness)
                + "/"@,
            id@ == base + reg_name_chars(vi_path@.take(i as int)),
        decreases n - i,
    {
        let c = vi_path.get_char(i);
        if !(c == ':' || c == '\\' || c == '.' || c == ' ' || c == '/' || c == '?') {
            id.append(vi_path.substring_char(i, i + 1));
        }
        proof {
            assert(vi_path@.take(i + 1).drop_last() =~= vi_path@.take(i as int));
            assert(vi_path@.take(i + 1).last() == vi_path@[i as int]);
            assert(vi_path@.subrange(i as int, i + 1) =~= seq![vi_path@[i as int]]);
            assert(id@ =~= base + reg_name_chars(vi_path@.take(i + 1)));
        }
        i += 1;
    }
    proof {
        assert(vi_path@.take(n as int) =~= vi_path@);
    }
    id
}

/// The characters of the publish request for a lease: the discovery service
/// is asked to answer a lookup of the lease name with a canned success
/// response that carries the listener's port.
pub open spec fn publish_url_chars(id: Seq<char>, port: int) -> Seq<char> {
    "http://localhost:3580/publish?"@ + id + "="@
        + "HTTP/1.0 200 OK%0D%0AServer: Service Locator%0D%0APragma: no-cache%0D%0AConnection: Close%0D%0AContent-Length: 12%0D%0AContent-Type: text/html%0D%0A%0D%0A"@
        + "Port="@ + dec_chars(port) + "%0D%0A"@
}

/// The characters of the delete request that withdraws a lease.
pub open spec fn delete_url_chars(id: Seq<char>) -> Seq<char> {
    "http://localhost:3580/delete?"@ + id
}

/// Build the publish request for a lease name and port.
pub fn publish_url(id: &str, port: u16) -> (r: String)
    ensures
        r@ == publish_url_chars(id@, port as int),
{
    let mut url = String::from_str("http://localhost:3580/publish?");
    url.append(id);
    url.append("=");
    url.append(
        "HTTP/1.0 200 OK%0D%0AServer: Service Locator%0D%0APragma: no-cache%0D%0AConnection: Close%0D%0AContent-Length: 12%0D%0AContent-Type: text/html%0D%0A%0D%0A",
    );
    url.append("Port=");
    let port_text = u64_to_string(port as u64);
    url.append(port_text.as_str());
    url.append("%0D%0A");
    url
}

/// Build the delete request for a lease name.
pub fn delete_url(id: &str) -> (r: String)
    ensures
        r@ == delete_url_chars(id@),
{
    let mut url = String::from_str("http://localhost:3580/delete?");
    url.append(id);
    url
}

/// The discovery service's verdict, read out of its status code: any
/// non-failing status is success, anything above 299 is the distinct
/// response error carrying the code.
pub fn interpret_status(status_code: u16) -> (r: Result<(), LabVIEWError>)
    ensures
        r == if status_code > 299 {
            Err::<(), LabVIEWError>(LabVIEWError::ServiceLocatorResponseError(status_code))
        } else {
            Ok::<(), LabVIEWError>(())
        },
{
    if status_code > 299 {
        Err(LabVIEWError::ServiceLocatorResponseError(status_code))
    } else {
        Ok(())
    }
}

/// Relies on ureq's `get(url).call()`: one blocking HTTP GET of the given
/// URL. The answer's status code comes back, or the transport error's own
/// text; the network decides which.
#[verifier::external_body]
fn http_get_status(url: &str) -> Result<u16, String> {
    match ureq::get(url).call() {
        Ok(response) => Ok(response.status().as_u16()),
        Err(e) => Err(e.to_string()),
    }
}

/// A live lease with the discovery service, valid until unregistered.
#[derive(Debug)]
pub struct Registration {
    id: String,
}

impl Registration {
    /// The lease name the registration was made under.
    pub closed spec fn spec_id(self) -> Seq<char> {
        self.id@
    }

    /// Register the VI's lease with the discovery service: one publish
    /// request, built by `publish_url` from the lease name, whose answer is
    /// judged by `interpret_status`. What comes back is the network's to
    /// decide; each outcome is mapped as stated.
    pub fn register(vi_path: &str, install: &LabviewInstall, port: u16) -> (r: Result<
        Registration,
        LabVIEWError,
    >)
        ensures
            match r {
                Ok(reg) => reg.spec_id() == registration_id_chars(vi_path@, *install),
                Err(e) => e matches LabVIEWError::ServiceLocatorCommsError(_) || (e matches
                LabVIEWError::ServiceLocatorResponseError(c) && c > 299),
            },
    {
        let id = generate_registration_id(vi_path, install);
        let url = publish_url(id.as_str(), port);
        match http_get_status(url.as_str()) {
            Ok(status_code) => {
                match interpret_status(status_code) {
                    Ok(()) => Ok(Registration { id }),
                    Err(e) => Err(e),
                }
            },
            Err(message) => Err(LabVIEWError::ServiceLocatorCommsError(message)),
        }
    }

    /// Unregisters the port with the service locator and consumes the
    /// registration object: one delete request, built by `delete_url` from
    /// the lease name, whose answer is judged by `interpret_status`. The
    /// network decides what comes back; each outcome is mapped as stated.
    pub fn unregister(self) -> (r: Result<(), LabVIEWError>)
        ensures
            match r {
                Ok(()) => true,
                Err(e) => e matches LabVIEWError::ServiceLocatorCommsError(_) || (e matches
                LabVIEWError::ServiceLocatorResponseError(c) && c > 299),
            },
    {
        let url = delete_url(self.id.as_str());
        match http_get_status(url.as_str()) {
            Ok(status_code) => interpret_status(status_code),
            Err(message) => Err(LabVIEWError::ServiceLocatorCommsError(message)),
        }
    }
}

} // verus!
