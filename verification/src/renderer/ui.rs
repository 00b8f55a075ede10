pub mod text_box_node;
