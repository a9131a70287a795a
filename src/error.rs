use vstd::prelude::*;

verus! {

#[verifier::external_type_specification]
#[verifier::external_body]
pub struct ExNetworkTablesError(network_tables::Error);

#[verifier::external_type_specification]
#[verifier::external_body]
pub struct ExDatalogError(wpilog::DatalogError);

/// Errors of the application's backend.
#[derive(Debug)]
pub enum EnokiError {
    /// The data log could not be read or written; the message says why.
    DlIo(String),
    /// The data log refused an operation.
    Dl(wpilog::DatalogError),
    /// The protocol client failed.
    NTTimeout(network_tables::Error),
    /// An operation reserved to the main thread was called from the named one.
    NotMainThread(String),
}

/// Succeeds exactly when `thread_name` is `main`; otherwise names the thread.
pub fn check_if_main_thread(thread_name: &str) -> (r: Result<(), EnokiError>)
    ensures
        r is Ok <==> thread_name@ == "main"@,
        r is Err ==> r->Err_0 is NotMainThread && r->Err_0->NotMainThread_0@ == thread_name@,
{
    let t = String::from_str(thread_name);
    let main = String::from_str("main");
    if t == main {
        Ok(())
    } else {
        Err(EnokiError::NotMainThread(t))
    }
}

} // verus!
