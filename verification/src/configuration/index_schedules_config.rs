//! The definitions of the indices that are kept in step, as they are
//! configured.

use crate::models::store_to_elastic::clone_opt_text;
use vstd::prelude::*;

verus! {

/// One index that is kept in step: its alias, when it is due, and how it is
/// filled.
#[derive(Debug)]
pub struct IndexSchedules {
    /// The alias under which the index is searched.
    pub index_name: String,
    /// The cron expression that says when the index is due.
    pub time: String,
    /// `static` for a full re-index, `dynamic` for an incremental one.
    pub indexing_type: String,
    /// The file that holds the settings and mappings of the index.
    pub setting_path: Option<String>,
    /// The name of the task that fills the index.
    pub function_name: String,
    /// How many rows the relational side is asked for at a time.
    pub sql_batch_size: usize,
    /// How many documents the search engine is sent at a time.
    pub es_batch_size: usize,
}

/// All the indices that are kept in step.
#[derive(Debug)]
pub struct IndexSchedulesConfig {
    pub index: Vec<IndexSchedules>,
}

impl IndexSchedules {
    pub fn index_name(&self) -> (v: &String)
        ensures
            *v == self.index_name,
    {
        &self.index_name
    }

    pub fn time(&self) -> (v: &String)
        ensures
            *v == self.time,
    {
        &self.time
    }

    pub fn indexing_type(&self) -> (v: &String)
        ensures
            *v == self.indexing_type,
    {
        &self.indexing_type
    }

    pub fn setting_path(&self) -> (v: &Option<String>)
        ensures
            *v == self.setting_path,
    {
        &self.setting_path
    }

    pub fn function_name(&self) -> (v: &String)
        ensures
            *v == self.function_name,
    {
        &self.function_name
    }

    pub fn sql_batch_size(&self) -> (v: &usize)
        ensures
            *v == self.sql_batch_size,
    {
        &self.sql_batch_size
    }

    pub fn es_batch_size(&self) -> (v: &usize)
        ensures
            *v == self.es_batch_size,
    {
        &self.es_batch_size
    }
}

impl Clone for IndexSchedules {
    /// A copy of the definition, for one run of its task.
    fn clone(&self) -> (copy: IndexSchedules)
        ensures
            copy == *self,
    {
        IndexSchedules {
            index_name: self.index_name.clone(),
            time: self.time.clone(),
            indexing_type: self.indexing_type.clone(),
            setting_path: clone_opt_text(&self.setting_path),
            function_name: self.function_name.clone(),
            sql_batch_size: self.sql_batch_size,
            es_batch_size: self.es_batch_size,
        }
    }
}

impl IndexSchedulesConfig {
    pub fn index(&self) -> (v: &Vec<IndexSchedules>)
        ensures
            *v == self.index,
    {
        &self.index
    }
}

} // verus!
