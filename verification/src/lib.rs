//! Topology engine for unstructured two-dimensional meshes of triangles and
//! quadrilaterals: the node, element and boundary stores, the mesh that
//! composes them, the extraction of boundary rings, and the validation report.

pub mod arrays;
pub mod boundaries;
pub mod boundary_polygon;
pub mod connectivity;
pub mod crs;
pub mod digest;
pub mod edges;
pub mod elements;
pub mod gr3;
pub mod gr3_reader;
pub mod gr3_writer;
pub mod hgrid;
pub mod laws;
pub mod linked_map;
pub mod nodes;
pub mod numbers;
pub mod ring_laws;
pub mod rings;
pub mod sms2dm;
pub mod text;
pub mod validation;

pub use boundary_polygon::BoundaryPolygon;
pub use hgrid::DepthConvention;
pub use hgrid::Hgrid;
pub use hgrid::HgridTryFromError;
pub use validation::MeshValidation;
