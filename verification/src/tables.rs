//! The resolved schema object and the schema builder: turning a selected
//! column-name set into an ordered, typed, immutable schema.

use crate::ordered::{
    entries_has_key, entries_lookup, entries_value, entry_keys, imap_contains_key,
    imap_get, imap_insert, imap_keys, imap_new, index_map_view, index_set_view, iset_get_index,
    iset_insert, iset_len, iset_new, lemma_entries_lookup_is_some,
};
use crate::selection::{
    compute_used_columns, lemma_dedup_first_contains, lemma_dedup_first_of_distinct,
    lemma_dedup_first_push, lemma_selected_columns_no_duplicates, names_view, opt_names_view,
    selected_columns, dedup_first,
};
use crate::types::{encoded_type, ColumnEncoding, ColumnType, Datatype, SchemaError};
use vstd::prelude::*;

verus! {

/// Schema for a particular table: an ordered mapping from column name to
/// encoded storage type, the entity the schema describes, and an optional
/// sort-key column list. Built once by [`Datatype::table_schema`] and never
/// mutated; the column mapping cannot be touched from outside this module.
pub struct Table {
    columns: indexmap::IndexMap<String, ColumnType>,
    /// datatype of Table
    pub datatype: Datatype,
    /// sort order for rows; stored as given, not validated against the
    /// output columns
    pub sort_columns: Option<Vec<String>>,
}

impl Table {
    /// The ordered (name, type) entries of this schema.
    pub closed spec fn columns_view(&self) -> Seq<(Seq<char>, ColumnType)> {
        index_map_view(self.columns)
    }

    /// The entity identifier this schema describes.
    pub closed spec fn datatype_view(&self) -> Datatype {
        self.datatype
    }

    /// The sort-key column list this schema carries.
    pub closed spec fn sort_columns_view(&self) -> Option<Seq<Seq<char>>> {
        match self.sort_columns {
            Option::Some(l) => Option::Some(names_view(l@)),
            Option::None => Option::None,
        }
    }

    /// The ordered output column names of this schema.
    pub open spec fn column_names(&self) -> Seq<Seq<char>> {
        entry_keys(self.columns_view())
    }

    /// return whether schema has a column
    pub fn has_column(&self, column: &str) -> (r: bool)
        ensures
            r == entries_has_key(self.columns_view(), column@),
    {
        imap_contains_key(&self.columns, column)
    }

    /// get ColumnType of column
    pub fn column_type(&self, column: &str) -> (r: Option<ColumnType>)
        ensures
            r == entries_lookup(self.columns_view(), column@),
    {
        imap_get(&self.columns, column)
    }

    /// get columns of Table
    pub fn columns(&self) -> (r: Vec<String>)
        ensures
            names_view(r@) == self.column_names(),
    {
        imap_keys(&self.columns)
    }
}

/// The entries of a resolved schema: each selected name paired with its
/// registry type, hex-substituted where the encoding preference asks for
/// it. Meaningful when every selected name is present in the registry.
pub open spec fn resolved_entries(
    registry: Seq<(Seq<char>, ColumnType)>,
    selected: Seq<Seq<char>>,
    encoding: ColumnEncoding,
) -> Seq<(Seq<char>, ColumnType)> {
    selected.map_values(
        |n: Seq<char>| (n, encoded_type(entries_value(registry, n), encoding)),
    )
}

impl Datatype {
    /// get schema for a particular datatype
    ///
    /// `column_types` and `default_columns` are the registry's data for this
    /// entity: its column-to-type mapping (whose iteration order is the
    /// canonical order for `"all"` expansion) and its ordered default list.
    /// The caller's three optional lists drive the column selection of
    /// [`selected_columns`]; each selected name is then looked up in the
    /// registry, the binary-to-hex override applied, and the result packaged
    /// with the entity identifier and the sort list. A selected name absent
    /// from the registry mapping is the sole error, `InvalidColumn`.
    pub fn table_schema(
        &self,
        column_types: &indexmap::IndexMap<String, ColumnType>,
        default_columns: &Vec<String>,
        binary_column_format: &ColumnEncoding,
        include_columns: &Option<Vec<String>>,
        exclude_columns: &Option<Vec<String>>,
        columns: &Option<Vec<String>>,
        sort: Option<Vec<String>>,
    ) -> (result: Result<Table, SchemaError>)
        requires
            entry_keys(index_map_view(*column_types)).no_duplicates(),
        ensures
            ({
                let registry = index_map_view(*column_types);
                let selected = selected_columns(
                    entry_keys(registry),
                    names_view(default_columns@),
                    opt_names_view(*include_columns),
                    opt_names_view(*exclude_columns),
                    opt_names_view(*columns),
                );
                match result {
                    Ok(table) => {
                        &&& table.datatype_view() == *self
                        &&& table.sort_columns_view() == opt_names_view(sort)
                        &&& table.column_names() == selected
                        &&& table.columns_view() == resolved_entries(
                            registry,
                            selected,
                            *binary_column_format,
                        )
                        &&& forall|i: int|
                            0 <= i < selected.len() ==> entries_has_key(
                                registry,
                                #[trigger] selected[i],
                            )
                    },
                    Err(e) => {
                        &&& e == SchemaError::InvalidColumn
                        &&& exists|i: int|
                            0 <= i < selected.len() && !entries_has_key(
                                registry,
                                #[trigger] selected[i],
                            )
                    },
                }
            }),
    {
        let ghost registry = index_map_view(*column_types);
        let ghost keys_v = entry_keys(registry);
        let keys = imap_keys(column_types);
        let mut all_columns: indexmap::IndexSet<String> = iset_new();
        let mut i: usize = 0;
        while i < keys.len()
            invariant
                i <= keys.len(),
                keys@.map_values(|s: String| s@) == keys_v,
                index_set_view(all_columns) == dedup_first(keys_v.take(i as int)),
            decreases keys.len() - i,
        {
            proof {
                lemma_dedup_first_contains(keys_v.take(i as int), keys_v[i as int]);
                lemma_dedup_first_push(keys_v.take(i as int), keys_v[i as int]);
                assert(keys_v.take(i as int + 1) =~= keys_v.take(i as int).push(
                    keys_v[i as int],
                ));
            }
            iset_insert(&mut all_columns, keys[i].clone());
            i = i + 1;
        }
        proof {
            assert(keys_v.take(keys.len() as int) =~= keys_v);
            lemma_dedup_first_of_distinct(keys_v);
        }
        let used_columns = compute_used_columns(
            all_columns,
            default_columns,
            include_columns,
            exclude_columns,
            columns,
        );
        let ghost selected = selected_columns(
            keys_v,
            names_view(default_columns@),
            opt_names_view(*include_columns),
            opt_names_view(*exclude_columns),
            opt_names_view(*columns),
        );
        proof {
            lemma_selected_columns_no_duplicates(
                keys_v,
                names_view(default_columns@),
                opt_names_view(*include_columns),
                opt_names_view(*exclude_columns),
                opt_names_view(*columns),
            );
        }
        let n = iset_len(&used_columns);
        let mut table_columns: indexmap::IndexMap<String, ColumnType> = imap_new();
        let mut idx: usize = 0;
        proof {
            assert(index_map_view(table_columns) =~= resolved_entries(
                registry,
                selected.take(0),
                *binary_column_format,
            ));
        }
        while idx < n
            invariant
                idx <= n,
                n == index_set_view(used_columns).len(),
                index_set_view(used_columns) == selected,
                selected.no_duplicates(),
                registry == index_map_view(*column_types),
                selected == selected_columns(
                    entry_keys(registry),
                    names_view(default_columns@),
                    opt_names_view(*include_columns),
                    opt_names_view(*exclude_columns),
                    opt_names_view(*columns),
                ),
                index_map_view(table_columns) == resolved_entries(
                    registry,
                    selected.take(idx as int),
                    *binary_column_format,
                ),
                forall|j: int|
                    0 <= j < idx ==> entries_has_key(registry, #[trigger] selected[j]),
            decreases n - idx,
        {
            let column = iset_get_index(&used_columns, idx);
            let looked_up = imap_get(column_types, column.as_str());
            match looked_up {
                Option::None => {
                    proof {
                        lemma_entries_lookup_is_some(registry, selected[idx as int]);
                        assert(!entries_has_key(registry, selected[idx as int]));
                    }
                    return Err(SchemaError::InvalidColumn);
                },
                Option::Some(native) => {
                    let ctype = if *binary_column_format == ColumnEncoding::Hex && native
                        == ColumnType::Binary {
                        ColumnType::Hex
                    } else {
                        native
                    };
                    proof {
                        lemma_entries_lookup_is_some(registry, selected[idx as int]);
                        assert(entries_has_key(registry, selected[idx as int]));
                        assert(ctype == encoded_type(native, *binary_column_format));
                        assert(native == entries_value(registry, selected[idx as int]));
                        let before = index_map_view(table_columns);
                        assert(!entries_has_key(before, selected[idx as int])) by {
                            if entries_has_key(before, selected[idx as int]) {
                                let j = choose|j: int|
                                    0 <= j < before.len() && before[j].0 == selected[
                                        idx as int
                                    ];
                                assert(before[j].0 == selected.take(idx as int)[j]);
                                assert(selected[j] == selected[idx as int]);
                                assert(false);
                            }
                        }
                    }
                    imap_insert(&mut table_columns, column.clone(), ctype);
                    proof {
                        assert(resolved_entries(
                            registry,
                            selected.take(idx as int + 1),
                            *binary_column_format,
                        ) =~= resolved_entries(
                            registry,
                            selected.take(idx as int),
                            *binary_column_format,
                        ).push((selected[idx as int], ctype)));
                    }
                },
            }
            idx = idx + 1;
        }
        proof {
            assert(selected.take(n as int) =~= selected);
        }
        let table = Table { columns: table_columns, datatype: *self, sort_columns: sort };
        proof {
            assert(table.column_names() =~= selected);
        }
        Ok(table)
    }
}

} // verus!
