use vstd::prelude::*;

verus! {

/// One historical trade fill, exactly as it is accumulated and written out.
///
/// `size` and `price` carry the venue's decimal values as their canonical
/// string renderings; the retrieval logic never computes with them. The
/// surrounding application converts to and from its decimal type at the
/// boundary. `fill_time` is the authoritative ordering key: an RFC 3339
/// timestamp string with millisecond precision and an explicit UTC offset.
#[derive(Debug, PartialEq, Eq)]
pub struct Trade {
    pub fill_id: String,
    pub symbol: String,
    pub side: String,
    pub order_id: String,
    pub size: String,
    pub price: String,
    pub fill_time: String,
    pub fill_type: String,
}

impl Trade {
    /// The output row for this trade: its eight fields in declaration order.
    pub fn to_record(&self) -> (r: Vec<String>)
        ensures
            r@.len() == 8,
            r@[0]@ == self.fill_id@,
            r@[1]@ == self.symbol@,
            r@[2]@ == self.side@,
            r@[3]@ == self.order_id@,
            r@[4]@ == self.size@,
            r@[5]@ == self.price@,
            r@[6]@ == self.fill_time@,
            r@[7]@ == self.fill_type@,
    {
        let mut r: Vec<String> = Vec::new();
        r.push(self.fill_id.clone());
        r.push(self.symbol.clone());
        r.push(self.side.clone());
        r.push(self.order_id.clone());
        r.push(self.size.clone());
        r.push(self.price.clone());
        r.push(self.fill_time.clone());
        r.push(self.fill_type.clone());
        r
    }
}

} // verus!
