//! Registration of the URI library's guest-side classes and module.
//!
//! The library's guest source itself is loaded by the embedding front
//! end; the bridge only registers the class identities host code boxes
//! values under.

use vstd::prelude::*;
use vstd::utf8::encode_utf8;

use crate::class;
use crate::def::ConstantNameError;
use crate::error::Error;
use crate::interp::{top_level_class_exists, Interp};
use crate::module;

verus! {

/// Host marker for the guest `IPSocket` class.
#[derive(Debug)]
pub struct IpSocket;

/// Host marker for the guest `IPAddr` class.
#[derive(Debug)]
pub struct IpAddr;

/// Host marker for the guest `URI` module.
#[derive(Debug)]
pub struct Uri;

/// Whether the class table holds a top-level module named `name`.
pub open spec fn top_level_module_exists(
    classes: Seq<crate::interp::ClassEntry>,
    name: Seq<u8>,
) -> bool {
    exists|c: int|
        0 <= c < classes.len() && (#[trigger] classes[c].name)@ == name && classes[c].parent is None
            && classes[c].is_module
}

/// Register the URI library's guest identities: the `IPSocket` and
/// `IPAddr` classes and the `URI` module, all top level.
pub fn init(interp: &mut Interp) -> (r: Result<(), Error>)
    requires
        old(interp).wf(),
        old(interp).symbols@.len() < u32::MAX,
    ensures
        final(interp).wf(),
        final(interp).heap == old(interp).heap,
        final(interp).arena == old(interp).arena,
        final(interp).globals == old(interp).globals,
        final(interp).boxed == old(interp).boxed,
        final(interp).anomalies == old(interp).anomalies,
        final(interp).symbols@.len() <= old(interp).symbols@.len() + 1,
        r is Ok,
        final(interp).classes@.len() == old(interp).classes@.len() + 3,
        forall|c: int|
            0 <= c < old(interp).classes@.len() ==> final(interp).classes@[c] == old(
                interp,
            ).classes@[c],
        top_level_class_exists(final(interp).classes@, encode_utf8("IPSocket"@)),
        top_level_class_exists(final(interp).classes@, encode_utf8("IPAddr"@)),
        top_level_module_exists(final(interp).classes@, encode_utf8("URI"@)),
{
    let ghost c0 = interp.classes@;
    proof {
        reveal_strlit("IPSocket");
        reveal_strlit("IPAddr");
        reveal_strlit("URI");
        assert(vstd::string::is_ascii("IPSocket"));
        assert(vstd::string::is_ascii("IPAddr"));
        assert(vstd::string::is_ascii("URI"));
        crate::string::lemma_ascii_no_nul("IPSocket");
        crate::string::lemma_ascii_no_nul("IPAddr");
        crate::string::lemma_ascii_no_nul("URI");
    }
    let spec = match class::Spec::new("IPSocket", None) {
        Ok(spec) => spec,
        Err(_) => {
            proof {
                assert(false);
            }
            return Err(Error::ConstantName(ConstantNameError::new()));
        },
    };
    match interp.define_class(&spec) {
        Ok(_) => {},
        Err(_) => {
            proof {
                assert(false);
            }
            return Err(Error::ConstantName(ConstantNameError::new()));
        },
    }
    let spec = match class::Spec::new("IPAddr", None) {
        Ok(spec) => spec,
        Err(_) => {
            proof {
                assert(false);
            }
            return Err(Error::ConstantName(ConstantNameError::new()));
        },
    };
    match interp.define_class(&spec) {
        Ok(_) => {},
        Err(_) => {
            proof {
                assert(false);
            }
            return Err(Error::ConstantName(ConstantNameError::new()));
        },
    }
    let mspec = match module::Spec::new(interp, "URI", None) {
        Ok(spec) => spec,
        Err(_) => {
            proof {
                assert(false);
            }
            return Err(Error::ConstantName(ConstantNameError::new()));
        },
    };
    match interp.define_module(&mspec) {
        Ok(_) => {},
        Err(_) => {
            proof {
                assert(false);
            }
            return Err(Error::ConstantName(ConstantNameError::new()));
        },
    }
    proof {
        assert(interp.classes@[c0.len() as int].name@ == encode_utf8("IPSocket"@));
        assert(interp.classes@[c0.len() as int + 1].name@ == encode_utf8("IPAddr"@));
        assert(interp.classes@[c0.len() as int + 2].name@ == encode_utf8("URI"@));
    }
    Ok(())
}

} // verus!
