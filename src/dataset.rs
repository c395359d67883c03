use vstd::prelude::*;

verus! {

/// One column of a dataset: its values in insertion order, and the bounds
/// `(min, max)` recorded by the last rescaling, if any.
#[derive(Debug)]
pub struct DatasetRow<T> {
    data: Vec<T>,
    bounds: Option<(T, T)>,
}

impl<T: Copy> DatasetRow<T> {
    /// The values of the column, in insertion order.
    pub closed spec fn values(&self) -> Seq<T> {
        self.data@
    }

    /// The `(min, max)` pair recorded by the last rescaling.
    pub closed spec fn spec_bounds(&self) -> Option<(T, T)> {
        self.bounds
    }

    /// An empty column with no recorded bounds.
    pub fn new() -> (r: Self)
        ensures
            r.values() == Seq::<T>::empty(),
            r.spec_bounds() is None,
    {
        DatasetRow { data: Vec::new(), bounds: None }
    }

    /// Appends one value.
    pub fn push(&mut self, value: T)
        ensures
            final(self).values() == old(self).values().push(value),
            final(self).spec_bounds() == old(self).spec_bounds(),
    {
        self.data.push(value);
    }

    /// The number of values.
    pub fn len(&self) -> (r: usize)
        ensures
            r == self.values().len(),
    {
        self.data.len()
    }

    /// The values of the column, in insertion order.
    pub fn data(&self) -> (r: &Vec<T>)
        ensures
            r@ == self.values(),
    {
        &self.data
    }

    /// The recorded `(min, max)` pair.
    pub fn bounds(&self) -> (r: Option<(T, T)>)
        ensures
            r == self.spec_bounds(),
    {
        self.bounds
    }

    /// Replaces every value at once, keeping the length, and records `bounds`.
    pub fn replace(&mut self, values: Vec<T>, bounds: Option<(T, T)>)
        requires
            values@.len() == old(self).values().len(),
        ensures
            final(self).values() == values@,
            final(self).spec_bounds() == bounds,
    {
        self.data = values;
        self.bounds = bounds;
    }
}

/// The ways loading a dataset can fail.
#[derive(Debug)]
pub enum DatasetError {
    IsEmpty,
    CouldNotOpenFile(String),
    InvalidFormat(String),
}

/// The message that describes `e`.
pub open spec fn dataset_error_text(e: DatasetError) -> Seq<char> {
    match e {
        DatasetError::IsEmpty => "Dataset is empty"@,
        DatasetError::CouldNotOpenFile(m) => "CouldNotOpenFile: "@ + m@,
        DatasetError::InvalidFormat(m) => "InvalidFormat: "@ + m@,
    }
}

impl DatasetError {
    /// The message that describes this error.
    pub fn message(&self) -> (r: String)
        ensures
            r@ == dataset_error_text(*self),
    {
        proof {
            reveal_strlit("Dataset is empty");
            reveal_strlit("CouldNotOpenFile: ");
            reveal_strlit("InvalidFormat: ");
        }
        match self {
            DatasetError::IsEmpty => String::from_str("Dataset is empty"),
            DatasetError::CouldNotOpenFile(m) => {
                String::from_str("CouldNotOpenFile: ").concat(m.as_str())
            },
            DatasetError::InvalidFormat(m) => String::from_str("InvalidFormat: ").concat(
                m.as_str(),
            ),
        }
    }
}

/// Two columns `x` and `y` of equal length: the independent and the dependent
/// variable of each sample.
#[derive(Debug)]
pub struct Dataset<T> {
    x: DatasetRow<T>,
    y: DatasetRow<T>,
}

/// The samples `(x_i, y_i)` formed from two columns of equal length.
pub open spec fn zip_columns<T>(xs: Seq<T>, ys: Seq<T>) -> Seq<(T, T)> {
    Seq::new(xs.len(), |i: int| (xs[i], ys[i]))
}

/// The index of the first failed record, if any.
pub open spec fn first_failure<T>(records: Seq<Result<T, String>>) -> Option<int> {
    if exists|i: int| 0 <= i < records.len() && records[i] is Err {
        Some(
            choose|i: int|
                0 <= i < records.len() && records[i] is Err && forall|j: int|
                    0 <= j < i ==> records[j] is Ok,
        )
    } else {
        None
    }
}

proof fn lemma_first_failure<T>(records: Seq<Result<T, String>>, k: int)
    requires
        0 <= k < records.len(),
        records[k] is Err,
        forall|j: int| 0 <= j < k ==> records[j] is Ok,
    ensures
        first_failure(records) == Some(k),
{
    let c = choose|i: int|
        0 <= i < records.len() && records[i] is Err && forall|j: int|
            0 <= j < i ==> records[j] is Ok;
    assert(0 <= c < records.len() && records[c] is Err && forall|j: int|
        0 <= j < c ==> records[j] is Ok);
    if c < k {
        assert(records[c] is Ok);
    }
    if k < c {
        assert(records[k] is Ok);
    }
}

impl<T: Copy> Dataset<T> {
    /// The columns have the same length.
    pub closed spec fn wf(&self) -> bool {
        self.x.values().len() == self.y.values().len()
    }

    /// The samples, in insertion order.
    pub closed spec fn samples(&self) -> Seq<(T, T)> {
        zip_columns(self.x.values(), self.y.values())
    }

    /// The values of column `x`.
    pub closed spec fn xs(&self) -> Seq<T> {
        self.x.values()
    }

    /// The values of column `y`.
    pub closed spec fn ys(&self) -> Seq<T> {
        self.y.values()
    }

    /// The bounds recorded for column `x`.
    pub closed spec fn x_bounds(&self) -> Option<(T, T)> {
        self.x.spec_bounds()
    }

    /// The bounds recorded for column `y`.
    pub closed spec fn y_bounds(&self) -> Option<(T, T)> {
        self.y.spec_bounds()
    }

    /// Each sample is formed of the values of `x` and `y` at its index.
    pub proof fn lemma_samples(&self)
        requires
            self.wf(),
        ensures
            self.samples().len() == self.xs().len(),
            self.samples().len() == self.ys().len(),
            forall|i: int|
                0 <= i < self.samples().len() ==> #[trigger] self.samples()[i] == (
                self.xs()[i],
                self.ys()[i],
            ),
    {
    }

    /// An empty dataset with no recorded bounds.
    pub fn new() -> (r: Self)
        ensures
            r.wf(),
            r.samples() == Seq::<(T, T)>::empty(),
            r.x_bounds() is None,
            r.y_bounds() is None,
    {
        let r = Dataset { x: DatasetRow::new(), y: DatasetRow::new() };
        assert(r.samples() =~= Seq::<(T, T)>::empty());
        r
    }

    /// Appends one sample: its `x` to column `x` and its `y` to column `y`.
    pub fn push(&mut self, row: (T, T))
        requires
            old(self).wf(),
        ensures
            final(self).wf(),
            final(self).samples() == old(self).samples().push(row),
            final(self).x_bounds() == old(self).x_bounds(),
            final(self).y_bounds() == old(self).y_bounds(),
    {
        self.x.push(row.0);
        self.y.push(row.1);
        assert(self.samples() =~= old(self).samples().push(row));
    }

    /// The number of samples.
    pub fn len(&self) -> (r: usize)
        requires
            self.wf(),
        ensures
            r == self.samples().len(),
    {
        self.x.len()
    }

    /// Whether the dataset holds no sample.
    pub fn is_empty(&self) -> (r: bool)
        requires
            self.wf(),
        ensures
            r == (self.samples().len() == 0),
    {
        self.len() == 0
    }

    /// The samples `(x_i, y_i)`, in insertion order.
    pub fn pairs(&self) -> (r: Vec<(T, T)>)
        requires
            self.wf(),
        ensures
            r@ == self.samples(),
    {
        let xs = self.x.data();
        let ys = self.y.data();
        let mut r: Vec<(T, T)> = Vec::new();
        let mut i: usize = 0;
        while i < xs.len()
            invariant
                xs@ == self.xs(),
                ys@ == self.ys(),
                xs@.len() == ys@.len(),
                i <= xs@.len(),
                r@ == self.samples().take(i as int),
            decreases xs.len() - i,
        {
            r.push((xs[i], ys[i]));
            i = i + 1;
            assert(r@ =~= self.samples().take(i as int));
        }
        assert(self.samples().take(i as int) =~= self.samples());
        r
    }

    /// The values of column `x`.
    pub fn x_values(&self) -> (r: &Vec<T>)
        ensures
            r@ == self.xs(),
    {
        self.x.data()
    }

    /// The values of column `y`.
    pub fn y_values(&self) -> (r: &Vec<T>)
        ensures
            r@ == self.ys(),
    {
        self.y.data()
    }

    /// Replaces every value of column `x` and records its bounds.
    pub fn replace_x(&mut self, values: Vec<T>, bounds: Option<(T, T)>)
        requires
            old(self).wf(),
            values@.len() == old(self).xs().len(),
        ensures
            final(self).wf(),
            final(self).xs() == values@,
            final(self).ys() == old(self).ys(),
            final(self).x_bounds() == bounds,
            final(self).y_bounds() == old(self).y_bounds(),
    {
        self.x.replace(values, bounds);
    }

    /// Replaces every value of column `y` and records its bounds.
    pub fn replace_y(&mut self, values: Vec<T>, bounds: Option<(T, T)>)
        requires
            old(self).wf(),
            values@.len() == old(self).ys().len(),
        ensures
            final(self).wf(),
            final(self).xs() == old(self).xs(),
            final(self).ys() == values@,
            final(self).x_bounds() == old(self).x_bounds(),
            final(self).y_bounds() == bounds,
    {
        self.y.replace(values, bounds);
    }

    /// The smallest `x` recorded by the last rescaling of column `x`.
    pub fn get_x_min(&self) -> (r: Option<T>)
        ensures
            r == (match self.x_bounds() {
                Some(b) => Some(b.0),
                None => None::<T>,
            }),
    {
        match self.x.bounds() {
            Some(b) => Some(b.0),
            None => None,
        }
    }

    /// The largest `x` recorded by the last rescaling of column `x`.
    pub fn get_x_max(&self) -> (r: Option<T>)
        ensures
            r == (match self.x_bounds() {
                Some(b) => Some(b.1),
                None => None::<T>,
            }),
    {
        match self.x.bounds() {
            Some(b) => Some(b.1),
            None => None,
        }
    }

    /// The smallest `y` recorded by the last rescaling of column `y`.
    pub fn get_y_min(&self) -> (r: Option<T>)
        ensures
            r == (match self.y_bounds() {
                Some(b) => Some(b.0),
                None => None::<T>,
            }),
    {
        match self.y.bounds() {
            Some(b) => Some(b.0),
            None => None,
        }
    }

    /// The largest `y` recorded by the last rescaling of column `y`.
    pub fn get_y_max(&self) -> (r: Option<T>)
        ensures
            r == (match self.y_bounds() {
                Some(b) => Some(b.1),
                None => None::<T>,
            }),
    {
        match self.y.bounds() {
            Some(b) => Some(b.1),
            None => None,
        }
    }

    /// Builds a dataset from the records read from a tabular source, in
    /// order. The first record that failed to parse makes the whole load fail
    /// with `InvalidFormat`; a source without records fails with `IsEmpty`.
    pub fn from_records(records: Vec<Result<(T, T), String>>) -> (r: Result<Self, DatasetError>)
        ensures
            match first_failure(records@) {
                Some(k) => r == Err::<Self, DatasetError>(
                    DatasetError::InvalidFormat(records@[k]->Err_0),
                ),
                None => if records@.len() == 0 {
                    r == Err::<Self, DatasetError>(DatasetError::IsEmpty)
                } else {
                    &&& r is Ok
                    &&& r->Ok_0.wf()
                    &&& r->Ok_0.samples() == records@.map_values(
                        |rec: Result<(T, T), String>| rec->Ok_0,
                    )
                    &&& r->Ok_0.x_bounds() is None
                    &&& r->Ok_0.y_bounds() is None
                },
            },
    {
        let mut dataset = Dataset::new();
        let mut i: usize = 0;
        while i < records.len()
            invariant
                i <= records@.len(),
                dataset.wf(),
                dataset.x_bounds() is None,
                dataset.y_bounds() is None,
                forall|j: int| 0 <= j < i ==> (#[trigger] records@[j]) is Ok,
                dataset.samples() == records@.take(i as int).map_values(
                    |rec: Result<(T, T), String>| rec->Ok_0,
                ),
            decreases records.len() - i,
        {
            match &records[i] {
                Ok(row) => {
                    dataset.push(*row);
                },
                Err(msg) => {
                    proof {
                        lemma_first_failure(records@, i as int);
                    }
                    return Err(DatasetError::InvalidFormat(msg.clone()));
                },
            }
            i = i + 1;
            assert(dataset.samples() =~= records@.take(i as int).map_values(
                |rec: Result<(T, T), String>| rec->Ok_0,
            ));
        }
        assert(records@.take(i as int) =~= records@);
        if dataset.is_empty() {
            return Err(DatasetError::IsEmpty);
        }
        Ok(dataset)
    }
}

} // verus!
