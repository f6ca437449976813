//! Data of flux mode.

use vstd::prelude::*;

verus! {

/// One decoded flux packet.
#[derive(Debug, Clone)]
pub struct FluxDataResult {
    /// The time that the packet covers, in milliseconds.
    pub time_millis: i32,
    /// Particle counts of L1 to L7.
    pub particle_counting: Vec<i32>,
    /// The layer of each of the 1000 particle slots.
    pub particle_layer: Vec<i32>,
    /// The offset time of each of the 1000 particle slots.
    pub particle_offset_time: Vec<i32>,
}

/// What a flux packet says.
#[verifier::ext_equal]
pub struct FluxView {
    pub time_millis: int,
    pub counting: Seq<i32>,
    pub layer: Seq<i32>,
    pub offset_time: Seq<i32>,
}

impl View for FluxDataResult {
    type V = FluxView;

    open spec fn view(&self) -> FluxView {
        FluxView {
            time_millis: self.time_millis as int,
            counting: self.particle_counting@,
            layer: self.particle_layer@,
            offset_time: self.particle_offset_time@,
        }
    }
}

impl Default for FluxDataResult {
    fn default() -> (r: FluxDataResult)
        ensures
            r@ == (FluxView {
                time_millis: 0,
                counting: Seq::new(7, |i: int| 0i32),
                layer: Seq::new(1000, |i: int| 0i32),
                offset_time: Seq::new(1000, |i: int| 0i32),
            }),
    {
        FluxDataResult {
            time_millis: 0,
            particle_counting: vec![0; 7],
            particle_layer: vec![0; 1000],
            particle_offset_time: vec![0; 1000],
        }
    }
}

} // verus!
