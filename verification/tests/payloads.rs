use waitfree_sync::spsc::spsc;
use waitfree_sync::triple_buffer::triple_buffer;

const COUNT: usize = 16_384;

#[derive(Debug, PartialEq, Clone)]
pub struct SomeStruct {
    pub counter: i32,
    pub inner_field: Vec<Option<SomeEnum>>,
}

impl Default for SomeStruct {
    fn default() -> Self {
        Self {
            counter: 0,
            inner_field: vec![Some(SomeEnum::State1)],
        }
    }
}

#[derive(Debug, PartialEq, Clone)]
pub enum SomeEnum {
    State1,
    State2,
    State3,
    State4,
    State5,
}

#[test]
fn test_spsc() {
    // Flat fixed-size payloads: every received value must be internally
    // self-consistent and arrive in order.
    let (mut writer, mut reader) = spsc::<[i32; 50]>(COUNT);
    assert_eq!(writer.try_send([1; 50]), Ok(()));
    assert_eq!(reader.try_recv(), Some([1; 50]));
    for i in 0..COUNT {
        assert_eq!(writer.try_send([i as i32; 50]), Ok(()));
    }
    let mut expected: i32 = 0;
    while let Some(val) = reader.try_recv() {
        let first_entry = val[0];
        for entry in val {
            assert_eq!(entry, first_entry);
        }
        assert_eq!(first_entry, expected);
        expected += 1;
    }
    assert_eq!(expected as usize, COUNT);

    // Heap-allocated payloads.
    let (mut writer, mut reader) = spsc::<SomeStruct>(COUNT);
    assert_eq!(writer.try_send(SomeStruct::default()), Ok(()));
    assert_eq!(reader.try_recv(), Some(SomeStruct::default()));
    for i in 0..COUNT {
        assert_eq!(
            writer.try_send(SomeStruct {
                counter: i as i32,
                inner_field: vec![Some(SomeEnum::State1)],
            }),
            Ok(())
        );
    }
    while let Some(val) = reader.try_recv() {
        assert_eq!(val.inner_field, vec![Some(SomeEnum::State1)]);
    }
}

#[test]
fn test_tripple_buffer() {
    // Flat fixed-size payloads: every observed value must be internally
    // self-consistent, and the final published value must win.
    let (mut writer, mut reader) = triple_buffer::<[i32; 50]>();
    writer.write([1; 50]);
    assert_eq!(reader.try_read(), Some([1; 50]));
    for i in 0..COUNT {
        writer.write([i as i32; 50]);
        if let Some(val) = reader.try_read() {
            let first_entry = val[0];
            for entry in val {
                assert_eq!(entry, first_entry);
            }
        }
    }
    assert_eq!(reader.try_read(), Some([(COUNT - 1) as i32; 50]));

    // Heap-allocated payloads.
    let (mut writer, mut reader) = triple_buffer::<SomeStruct>();
    writer.write(SomeStruct::default());
    assert_eq!(reader.try_read(), Some(SomeStruct::default()));
    for i in 0..COUNT {
        writer.write(SomeStruct {
            counter: i as i32,
            inner_field: vec![Some(SomeEnum::State1)],
        });
        if let Some(val) = reader.try_read() {
            assert_eq!(val.inner_field, vec![Some(SomeEnum::State1)]);
        }
    }
}
