use bytes::{Bytes, BytesMut};
use proto_rw::error::ProtoRwError;
use proto_rw::types::{Var, LE};
use proto_rw::ProtoRw;

#[derive(Debug, PartialEq)]
struct Point {
    x: i32,
    y: i32,
    label: String,
}

impl ProtoRw for Point {
    fn read_proto(buf: &mut Bytes) -> Result<Self, ProtoRwError> {
        Ok(Point {
            x: Var::<i32>::read_proto(buf)?.0,
            y: LE::<i32>::read_proto(buf)?.0,
            label: String::read_proto(buf)?,
        })
    }

    fn write_proto(&self, buf: &mut BytesMut) -> Result<(), ProtoRwError> {
        Var(self.x).write_proto(buf)?;
        LE(self.y).write_proto(buf)?;
        self.label.write_proto(buf)?;
        Ok(())
    }
}

#[test]
fn a_type_of_the_caller_can_have_a_wire_form() {
    let point = Point { x: -3, y: 7, label: "p".to_string() };
    let mut buf = BytesMut::new();
    point.write_proto(&mut buf).unwrap();
    assert_eq!(&buf[..], &[5, 7, 0, 0, 0, 1, b'p']);
    let mut buf = buf.freeze();
    assert_eq!(Point::read_proto(&mut buf), Ok(point));
    assert_eq!(Point::read_proto(&mut buf), Err(ProtoRwError::TruncatedInput));
}
