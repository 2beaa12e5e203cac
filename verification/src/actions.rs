//! What a finished project-level action reports back to the interface.
use vstd::prelude::*;
use vstd::string::*;

verus! {

/// A finished action: the status message to show, and whether the image list
/// has to be read again.
#[derive(Debug, Clone, PartialEq, Eq)]
pub struct ActionOutcome {
    pub message: String,
    pub refresh_images: bool,
}

/// The report of a Compose command: the success message where it exited
/// successfully, else what it wrote to standard error.
pub fn compose_outcome(succeeded: bool, stderr: &str, success: &str, refresh_images: bool) -> (r: Result<
    ActionOutcome,
    String,
>)
    ensures
        succeeded ==> (r matches Ok(o) && o.message@ == success@ && o.refresh_images == refresh_images),
        !succeeded ==> (r matches Err(m) && m@ == stderr@),
{
    if succeeded {
        Ok(ActionOutcome { message: success.to_owned(), refresh_images })
    } else {
        Err(stderr.to_owned())
    }
}

/// The report of a finished image pull; the image list is read again.
pub fn pull_outcome(reference: &str) -> (r: ActionOutcome)
    ensures
        r.message@ == "Pulled "@ + reference@,
        r.refresh_images,
{
    ActionOutcome { message: "Pulled ".to_owned().concat(reference), refresh_images: true }
}

} // verus!
