//! What the service does when it starts.

use crate::text::{decimal, decimal_text, same_text, texts};
use vstd::prelude::*;
use vstd::string::*;

verus! {

broadcast use vstd::string::group_string_axioms;

/// Where the data of the service stand.
pub enum DataDir {
    /// In the directory that the command line names.
    Given(String),
    /// In the directory that the service was started in.
    Current,
}

/// The position of the first `--data`, or the number of arguments.
pub open spec fn data_flag(args: Seq<Seq<char>>) -> int
    decreases args.len(),
{
    if args.len() == 0 || args[0] == "--data"@ {
        0
    } else {
        1 + data_flag(args.skip(1))
    }
}

/// Reads the command line: the directory stands behind the first `--data`, and
/// is empty where nothing does.
pub fn data_dir(args: &Vec<String>) -> (r: DataDir)
    ensures
        ({
            let all = texts(args@);
            let at = data_flag(all);
            match r {
                DataDir::Given(dir) => at < all.len() && dir@ == if at + 1 < all.len() {
                    all[at + 1]
                } else {
                    Seq::empty()
                },
                DataDir::Current => at == all.len(),
            }
        }),
{
    let ghost all = texts(args@);
    let mut i: usize = 0;
    assert(all.skip(0) =~= all);
    while i < args.len()
        invariant
            all == texts(args@),
            i <= args@.len(),
            data_flag(all) == i + data_flag(all.skip(i as int)),
        decreases args@.len() - i,
    {
        assert(all.skip(i as int)[0] == args@[i as int]@);
        if same_text(args[i].as_str(), "--data") {
            if i + 1 < args.len() {
                return DataDir::Given(args[i + 1].clone());
            }
            let none = String::new();
            assert(none@ =~= Seq::<char>::empty());
            return DataDir::Given(none);
        }
        assert(all.skip(i as int).skip(1) =~= all.skip(i + 1));
        i = i + 1;
    }
    DataDir::Current
}

/// Where the certificate of a port comes from.
pub enum TlsPlan {
    /// The port speaks plain text.
    Plain,
    /// From the files, which are made where they are missing.
    SelfSigned,
    /// From the files.
    Stored,
}

/// Where the certificate of the message service comes from.
pub fn tls_plan(tls: &str) -> (r: TlsPlan)
    ensures
        r == if tls@ == "self"@ {
            TlsPlan::SelfSigned
        } else if tls@ == "public"@ {
            TlsPlan::Stored
        } else {
            TlsPlan::Plain
        },
{
    if same_text(tls, "self") {
        TlsPlan::SelfSigned
    } else if same_text(tls, "public") {
        TlsPlan::Stored
    } else {
        TlsPlan::Plain
    }
}

/// Where the certificate of the panel comes from.
pub fn panel_tls_plan(panel_tls: &str) -> (r: TlsPlan)
    ensures
        r == if panel_tls@ == "tls"@ {
            TlsPlan::SelfSigned
        } else {
            TlsPlan::Plain
        },
{
    if same_text(panel_tls, "tls") {
        TlsPlan::SelfSigned
    } else {
        TlsPlan::Plain
    }
}

/// Whether the message service runs.
pub fn is_started(status: &str) -> (r: bool)
    ensures
        r == (status@ != "stop"@),
{
    !same_text(status, "stop")
}

/// The address that the panel listens on.
pub fn panel_address(bind: &str, port: u16) -> (r: String)
    ensures
        r@ == bind@ + ":"@ + decimal(port as nat),
{
    let mut out = bind.to_string();
    out.append(":");
    let digits = decimal_text(port as u64);
    out.append(digits.as_str());
    out
}

} // verus!
