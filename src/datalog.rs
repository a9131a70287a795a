use vstd::prelude::*;

use crate::error::{check_if_main_thread, EnokiError};

verus! {

/// A request to open a stream of the data log: the entry's name, its type
/// tag and optional metadata.
pub struct DatalogStart {
    pub name: String,
    pub entry_type: String,
    pub metadata: Option<String>,
}

/// A request to close the data log's stream of the named entry.
pub struct DatalogFinish {
    pub name: String,
}

/// Builds the request that opens the stream of entry `name`; only the main
/// thread may.
pub fn start_datalog_entry(thread_name: &str, name: &str, entry_type: &str, metadata: Option<&str>) -> (r: Result<DatalogStart, EnokiError>)
    ensures
        r is Ok <==> thread_name@ == "main"@,
        r is Ok ==> r->Ok_0.name@ == name@ && r->Ok_0.entry_type@ == entry_type@
            && (r->Ok_0.metadata is Some <==> metadata is Some)
            && (metadata is Some ==> r->Ok_0.metadata->Some_0@ == metadata->Some_0@),
        r is Err ==> r->Err_0 is NotMainThread && r->Err_0->NotMainThread_0@ == thread_name@,
{
    match check_if_main_thread(thread_name) {
        Err(e) => Err(e),
        Ok(()) => {
            let metadata = match metadata {
                Some(m) => Some(String::from_str(m)),
                None => None,
            };
            Ok(DatalogStart {
                name: String::from_str(name),
                entry_type: String::from_str(entry_type),
                metadata,
            })
        },
    }
}

/// Builds the request that closes the stream of entry `name`; only the main
/// thread may.
pub fn end_datalog_entry(thread_name: &str, name: &str) -> (r: Result<DatalogFinish, EnokiError>)
    ensures
        r is Ok <==> thread_name@ == "main"@,
        r is Ok ==> r->Ok_0.name@ == name@,
        r is Err ==> r->Err_0 is NotMainThread && r->Err_0->NotMainThread_0@ == thread_name@,
{
    match check_if_main_thread(thread_name) {
        Err(e) => Err(e),
        Ok(()) => Ok(DatalogFinish { name: String::from_str(name) }),
    }
}

} // verus!
