use vstd::prelude::*;

verus! {

/// One field of a table schema: its name and the backend's name for its type.
pub struct Column {
    pub name: String,
    pub col_type: String,
}

/// A named schema whose columns are kept in declaration order.
pub struct Table {
    pub name: String,
    pub columns: Vec<Column>,
}

impl View for Column {
    type V = (Seq<char>, Seq<char>);

    open spec fn view(&self) -> (Seq<char>, Seq<char>) {
        (self.name@, self.col_type@)
    }
}

/// The `(name, col_type)` pairs of a column list, in order.
pub open spec fn columns_view(cols: Seq<Column>) -> Seq<(Seq<char>, Seq<char>)> {
    cols.map_values(|c: Column| c@)
}

impl Column {
    pub fn new(name: String, col_type: String) -> (r: Column)
        ensures
            r.name@ == name@,
            r.col_type@ == col_type@,
    {
        Column { name, col_type }
    }

    /// A copy holding the same two strings.
    pub fn duplicate(&self) -> (r: Column)
        ensures
            r@ == self@,
    {
        Column { name: self.name.clone(), col_type: self.col_type.clone() }
    }
}

impl Table {
    pub fn new(name: String, columns: Vec<Column>) -> (r: Table)
        ensures
            r.name@ == name@,
            columns_view(r.columns@) == columns_view(columns@),
    {
        Table { name, columns }
    }
}

} // verus!
