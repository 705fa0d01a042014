//! The HTML node type and child-node parsing, re-exported from the
//! element module, where they are defined mutually with `Element`.

pub use crate::html_parser::element::{
    html_node_parsed, html_nodes_parsed, parse_child_nodes, Node,
};
