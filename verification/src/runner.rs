use vstd::prelude::*;

verus! {

/// Where the observations come from.
#[allow(non_camel_case_types)]
#[derive(Clone, Debug)]
pub enum Data_Source {
    Grpc,
    Get,
    Csv,
}

/// A live feed and its source.
#[allow(non_camel_case_types)]
#[derive(Clone, Debug)]
pub struct live_data {
    pub data_source: Data_Source,
}

} // verus!
