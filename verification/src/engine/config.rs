//! Configuration of a database instance.
use vstd::prelude::*;
use vstd::string::StringExecFns;

verus! {

/// Parameters of the vector index.
pub struct VectorConfig {
    pub m: Option<usize>,
    pub ef_construction: Option<usize>,
    pub ef_search: Option<usize>,
}

/// Parameters of the graph storage.
pub struct GraphConfig {
    pub secondary_indices: Option<Vec<String>>,
}

/// The configuration of a database instance.
pub struct Config {
    pub vector_config: VectorConfig,
    pub graph_config: GraphConfig,
    pub db_max_size_gb: Option<usize>,
    pub mcp: bool,
    pub schema: Option<String>,
    pub embedding_model: Option<String>,
    pub graphvis_node_label: Option<String>,
}

/// The configuration file that a new project starts from.
pub const INIT_CONFIG: &'static str = "
    {
        \"vector_config\": {
            \"m\": 16,
            \"ef_construction\": 128,
            \"ef_search\": 768
        },
        \"graph_config\": {
            \"secondary_indices\": []
        },
        \"db_max_size_gb\": 10,
        \"mcp\": true,
        \"embedding_model\": \"text-embedding-ada-002\",
        \"graphvis_node_label\": \"\"
    }
    ";

/// The embedding model of the default configuration.
pub const DEFAULT_EMBEDDING_MODEL: &'static str = "text_embedding-ada-002";

impl Config {
    /// A configuration with the given vector parameters and size limit, no
    /// secondary indices, and MCP enabled.
    pub fn new(
        m: usize,
        ef_construction: usize,
        ef_search: usize,
        db_max_size_gb: usize,
        schema: Option<String>,
        embedding_model: Option<String>,
        graphvis_node_label: Option<String>,
    ) -> (r: Self)
        ensures
            r.vector_config.m == Some(m),
            r.vector_config.ef_construction == Some(ef_construction),
            r.vector_config.ef_search == Some(ef_search),
            r.graph_config.secondary_indices is None,
            r.db_max_size_gb == Some(db_max_size_gb),
            r.mcp,
            r.schema == schema,
            r.embedding_model == embedding_model,
            r.graphvis_node_label == graphvis_node_label,
    {
        Config {
            vector_config: VectorConfig {
                m: Some(m),
                ef_construction: Some(ef_construction),
                ef_search: Some(ef_search),
            },
            graph_config: GraphConfig { secondary_indices: None },
            db_max_size_gb: Some(db_max_size_gb),
            mcp: true,
            schema,
            embedding_model,
            graphvis_node_label,
        }
    }

    /// The text of a new configuration file.
    pub fn init_config() -> (r: String)
        ensures
            r@ == INIT_CONFIG@,
    {
        String::from_str(INIT_CONFIG)
    }
}

impl Default for Config {
    fn default() -> (r: Self)
        ensures
            r.vector_config.m == Some(16usize),
            r.vector_config.ef_construction == Some(128usize),
            r.vector_config.ef_search == Some(768usize),
            r.graph_config.secondary_indices is None,
            r.db_max_size_gb == Some(10usize),
            r.mcp,
            r.schema is None,
            r.embedding_model is Some && r.embedding_model->0@ == DEFAULT_EMBEDDING_MODEL@,
            r.graphvis_node_label is None,
    {
        Config {
            vector_config: VectorConfig {
                m: Some(16),
                ef_construction: Some(128),
                ef_search: Some(768),
            },
            graph_config: GraphConfig { secondary_indices: None },
            db_max_size_gb: Some(10),
            mcp: true,
            schema: None,
            embedding_model: Some(String::from_str(DEFAULT_EMBEDDING_MODEL)),
            graphvis_node_label: None,
        }
    }
}

} // verus!
