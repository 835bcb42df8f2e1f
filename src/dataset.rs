use vstd::prelude::*;

use crate::error::ModelError;
use crate::scalar::Scalar;

verus! {

/// A record is well formed for a table of `width` fields per record: it has
/// at least a feature and a label, `width` fields in all, and every field is a number.
pub open spec fn record_well_formed<T: Scalar>(r: Seq<String>, width: nat) -> bool {
    &&& r.len() >= 2
    &&& r.len() == width
    &&& forall|i: int| 0 <= i < r.len() ==> (#[trigger] T::parse_spec(r[i]@)) is Some
}

/// Every record is well formed, with as many fields as the first one.
pub open spec fn records_well_formed<T: Scalar>(rs: Seq<Vec<String>>) -> bool {
    forall|j: int| 0 <= j < rs.len() ==> #[trigger] record_well_formed::<T>(rs[j]@, rs[0]@.len())
}

/// The number of features in a table of records: all fields of a record but its last.
pub open spec fn record_feature_count(rs: Seq<Vec<String>>) -> nat {
    if rs.len() == 0 {
        0
    } else {
        (rs[0]@.len() - 1) as nat
    }
}

/// The value of field `i` of record `j`.
pub open spec fn field_value<T: Scalar>(rs: Seq<Vec<String>>, j: int, i: int) -> T {
    T::parse_spec(rs[j]@[i]@)->Some_0
}

/// One labelled example: a feature vector and the value it should predict.
pub struct DataPoint<T> {
    pub features: Vec<T>,
    pub label: T,
}

/// A table of labelled examples, all with the same number of features.
pub struct Dataset<T> {
    data: Vec<DataPoint<T>>,
    feature_count: usize,
}

impl<T> Dataset<T> {
    #[verifier::type_invariant]
    spec fn inv(&self) -> bool {
        forall|j: int|
            0 <= j < self.data@.len() ==> (#[trigger] self.data@[j]).features@.len()
                == self.feature_count
    }
}

impl<T: Scalar> Dataset<T> {
    /// The examples, in order.
    pub closed spec fn points(&self) -> Seq<DataPoint<T>> {
        self.data@
    }

    /// The number of features that every example carries.
    pub closed spec fn feature_count_spec(&self) -> nat {
        self.feature_count as nat
    }

    /// Builds a dataset from text records: in each record every field but the
    /// last is a feature, and the last is the label.
    ///
    /// Refused with `MalformedRecord` when a record has fewer than two fields,
    /// a field is not a number, or records differ in length.
    pub fn from_records(records: &Vec<Vec<String>>) -> (r: Result<Dataset<T>, ModelError>)
        ensures
            r is Ok <==> records_well_formed::<T>(records@),
            r is Err ==> r == Err::<Dataset<T>, ModelError>(ModelError::MalformedRecord),
            r matches Ok(d) ==> {
                &&& d.points().len() == records@.len()
                &&& d.feature_count_spec() == record_feature_count(records@)
                &&& forall|j: int, i: int|
                    0 <= j < records@.len() && 0 <= i < d.feature_count_spec() ==> (
                    #[trigger] d.points()[j].features@[i]) == field_value::<T>(records@, j, i)
                &&& forall|j: int|
                    0 <= j < records@.len() ==> (#[trigger] d.points()[j]).label == field_value::<
                        T,
                    >(records@, j, d.feature_count_spec() as int)
            },
    {
        let ghost rs = records@;
        let mut data: Vec<DataPoint<T>> = Vec::new();
        if records.len() == 0 {
            return Ok(Dataset { data, feature_count: 0 });
        }
        let width = records[0].len();
        if width < 2 {
            proof {
                assert(!record_well_formed::<T>(rs[0]@, rs[0]@.len()));
            }
            return Err(ModelError::MalformedRecord);
        }
        let k = width - 1;
        let mut j: usize = 0;
        while j < records.len()
            invariant
                rs == records@,
                rs.len() > 0,
                width == rs[0]@.len(),
                width >= 2,
                k == width - 1,
                j <= rs.len(),
                data@.len() == j,
                forall|t: int| 0 <= t < j ==> #[trigger] record_well_formed::<T>(rs[t]@, width as nat),
                forall|t: int| 0 <= t < j ==> (#[trigger] data@[t]).features@.len() == k,
                forall|t: int, i: int|
                    0 <= t < j && 0 <= i < k ==> (#[trigger] data@[t].features@[i])
                        == field_value::<T>(rs, t, i),
                forall|t: int|
                    0 <= t < j ==> (#[trigger] data@[t]).label == field_value::<T>(rs, t, k as int),
            decreases rs.len() - j,
        {
            let rec = &records[j];
            if rec.len() != width {
                proof {
                    assert(!record_well_formed::<T>(rs[j as int]@, width as nat));
                }
                return Err(ModelError::MalformedRecord);
            }
            let mut features: Vec<T> = Vec::new();
            let mut i: usize = 0;
            while i < k
                invariant
                    rs == records@,
                    j < rs.len(),
                    *rec == rs[j as int],
                    rec@.len() == width,
                    width == rs[0]@.len(),
                    k == width - 1,
                    i <= k,
                    features@.len() == i,
                    forall|f: int| 0 <= f < i ==> (#[trigger] T::parse_spec(rec@[f]@)) is Some,
                    forall|f: int| 0 <= f < i ==> #[trigger] features@[f] == field_value::<T>(rs, j as int, f),
                decreases k - i,
            {
                match T::parse(rec[i].as_str()) {
                    Some(v) => {
                        features.push(v);
                    },
                    None => {
                        proof {
                            assert(T::parse_spec(rec@[i as int]@) is None);
                            assert(!record_well_formed::<T>(rs[j as int]@, width as nat));
                        }
                        return Err(ModelError::MalformedRecord);
                    },
                }
                i = i + 1;
            }
            let label = match T::parse(rec[k].as_str()) {
                Some(v) => v,
                None => {
                    proof {
                        assert(!record_well_formed::<T>(rs[j as int]@, width as nat));
                    }
                    return Err(ModelError::MalformedRecord);
                },
            };
            proof {
                assert forall|f: int| 0 <= f < rec@.len() implies (#[trigger] T::parse_spec(rec@[f]@)) is Some by {
                    if f < k {
                    } else {
                        assert(f == k);
                    }
                }
                assert(record_well_formed::<T>(rs[j as int]@, width as nat));
            }
            data.push(DataPoint { features, label });
            j = j + 1;
        }
        Ok(Dataset { data, feature_count: k })
    }

    pub fn len(&self) -> (r: usize)
        ensures
            r == self.points().len(),
    {
        self.data.len()
    }

    pub fn feature_count(&self) -> (r: usize)
        ensures
            r == self.feature_count_spec(),
    {
        self.feature_count
    }

    /// The example at index `j`.
    pub fn point(&self, j: usize) -> (r: &DataPoint<T>)
        requires
            j < self.points().len(),
        ensures
            *r == self.points()[j as int],
            r.features@.len() == self.feature_count_spec(),
    {
        proof {
            use_type_invariant(self);
        }
        &self.data[j]
    }
}

} // verus!
