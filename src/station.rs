use vstd::prelude::*;

verus! {

/// One fuel station's prices and metadata, as reported for a postcode.
///
/// Prices are in the upstream unit: ten times the displayed currency unit,
/// so a petrol price of 1359 is shown as 135.9.
pub struct Station {
    pub name: String,
    pub distance: String,
    pub petrol: bool,
    pub diesel: bool,
    pub petrol_price: u64,
    pub diesel_price: u64,
}

impl Station {
    pub fn new(
        name: String,
        distance: String,
        petrol: bool,
        diesel: bool,
        petrol_price: u64,
        diesel_price: u64,
    ) -> (r: Station)
        ensures
            r.name@ == name@,
            r.distance@ == distance@,
            r.petrol == petrol,
            r.diesel == diesel,
            r.petrol_price == petrol_price,
            r.diesel_price == diesel_price,
    {
        Station { name, distance, petrol, diesel, petrol_price, diesel_price }
    }

    /// Number of gauge lines this station contributes: one per fuel it sells.
    pub open spec fn fuel_count(&self) -> nat {
        (if self.petrol { 1nat } else { 0nat }) + (if self.diesel { 1nat } else { 0nat })
    }
}

} // verus!
